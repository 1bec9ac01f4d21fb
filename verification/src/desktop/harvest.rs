use vstd::prelude::*;

use crate::desktop::types::CarvedArtifact;
use vstd::string::StringExecFns;

verus! {

/// The bytes of the target that the harvest sweeps (16 MiB from the start).
pub const HARVEST_SPAN: usize = 16 * 1024 * 1024;

/// E-mail addresses.
pub open spec fn email_pattern() -> Seq<char> {
    "(?i)[a-z0-9._%+-]+@[a-z0-9.-]+\\.[a-z]{2,}"@
}

/// Dotted IPv4 addresses.
pub open spec fn ipv4_pattern() -> Seq<char> {
    "\\b(?:[0-9]{1,3}\\.){3}[0-9]{1,3}\\b"@
}

/// Bitcoin wallet addresses.
pub open spec fn bitcoin_pattern() -> Seq<char> {
    "\\b(bc1|[13])[a-zA-HJ-NP-Z0-9]{25,39}\\b"@
}

/// Payment card numbers.
pub open spec fn card_pattern() -> Seq<char> {
    "\\b(?:\\d[ -]*?){13,16}\\b"@
}

/// The successive non-overlapping matches of the byte regular expression `pattern` in
/// `haystack`, as the `regex` crate finds them; none when the pattern does not compile.
pub uninterp spec fn regex_matches(pattern: Seq<char>, haystack: Seq<u8>) -> Option<Seq<Seq<u8>>>;

/// Trusted: `regex::bytes::Regex::new(pattern)` and, when it compiles, `find_iter` over
/// `haystack`, each match converted to its bytes; the result is named
/// `regex_matches(pattern@, haystack@)`.
#[verifier::external_body]
fn find_matches(pattern: &str, haystack: &[u8]) -> (r: Option<Vec<Vec<u8>>>)
    ensures
        match r {
            Some(m) => regex_matches(pattern@, haystack@) == Some(m@.map_values(|v: Vec<u8>| v@)),
            None => regex_matches(pattern@, haystack@) is None,
        },
{
    regex::bytes::Regex::new(pattern).ok().map(|re| re.find_iter(haystack).map(|m| m.as_bytes().to_vec()).collect())
}

/// Trusted: `std::str::from_utf8`, documented to accept exactly the well-formed UTF-8
/// byte strings; the text is then copied into a `String`.
#[verifier::external_body]
fn utf8_text(bytes: &[u8]) -> (r: Option<String>)
    ensures
        match r {
            Some(s) => vstd::utf8::valid_utf8(bytes@) && s@ == vstd::utf8::decode_utf8(bytes@),
            None => !vstd::utf8::valid_utf8(bytes@),
        },
{
    std::str::from_utf8(bytes).ok().map(|s| s.to_string())
}

/// `items` with `x` added at the end unless already present.
pub open spec fn add_unique(items: Seq<Seq<char>>, x: Seq<char>) -> Seq<Seq<char>> {
    if items.contains(x) {
        items
    } else {
        items.push(x)
    }
}

/// The texts of the UTF-8 matches among `matches`, each once, in order of first match,
/// added after `start`.
pub open spec fn collect_texts(start: Seq<Seq<char>>, matches: Seq<Seq<u8>>) -> Seq<Seq<char>>
    decreases matches.len(),
{
    if matches.len() == 0 {
        start
    } else {
        let before = collect_texts(start, matches.drop_last());
        if vstd::utf8::valid_utf8(matches.last()) {
            add_unique(before, vstd::utf8::decode_utf8(matches.last()))
        } else {
            before
        }
    }
}

/// Whether some match is well-formed UTF-8.
pub open spec fn any_text(matches: Seq<Seq<u8>>) -> bool {
    exists|i: int| 0 <= i < matches.len() && vstd::utf8::valid_utf8(#[trigger] matches[i])
}

/// What the harvest gives for a swept buffer: the e-mail and IPv4 strings found, each
/// once, and the threat tags raised by wallet addresses and card numbers.
pub open spec fn harvest_result(buffer: Seq<u8>) -> Option<(Seq<Seq<char>>, Seq<Seq<char>>)> {
    match (
        regex_matches(email_pattern(), buffer),
        regex_matches(ipv4_pattern(), buffer),
        regex_matches(bitcoin_pattern(), buffer),
        regex_matches(card_pattern(), buffer),
    ) {
        (Some(email), Some(ipv4), Some(btc), Some(card)) => Some(
            (
                collect_texts(collect_texts(Seq::empty(), email), ipv4),
                if any_text(btc) {
                    seq!["Crypto_Wallet_Found"@]
                } else {
                    Seq::empty()
                } + if any_text(card) {
                    seq!["Credit_Card_Found"@]
                } else {
                    Seq::empty()
                },
            ),
        ),
        _ => None,
    }
}

/// The texts of `v`, in order.
pub open spec fn texts(v: Seq<String>) -> Seq<Seq<char>> {
    v.map_values(|x: String| x@)
}

/// Some match of `pattern` in `buffer` is well-formed UTF-8 text.
pub open spec fn some_text_match(pattern: Seq<char>, buffer: Seq<u8>) -> bool {
    match regex_matches(pattern, buffer) {
        Some(m) => exists|i: int| 0 <= i < m.len() && vstd::utf8::valid_utf8(#[trigger] m[i]),
        None => false,
    }
}

/// `t` is the text of one of the well-formed UTF-8 byte strings among `ms`.
pub open spec fn text_among(ms: Seq<Seq<u8>>, t: Seq<char>) -> bool {
    exists|i: int| 0 <= i < ms.len() && vstd::utf8::valid_utf8(#[trigger] ms[i]) && vstd::utf8::decode_utf8(ms[i]) == t
}

/// `t` is the text of some well-formed UTF-8 match of `pattern` in `buffer`.
pub open spec fn is_text_match(pattern: Seq<char>, buffer: Seq<u8>, t: Seq<char>) -> bool {
    match regex_matches(pattern, buffer) {
        Some(m) => text_among(m, t),
        None => false,
    }
}

proof fn lemma_collect_texts(start: Seq<Seq<char>>, ms: Seq<Seq<u8>>)
    requires
        start.no_duplicates(),
    ensures
        collect_texts(start, ms).no_duplicates(),
        forall|t: Seq<char>| #[trigger] collect_texts(start, ms).contains(t) <==> (start.contains(t) || text_among(ms, t)),
    decreases ms.len(),
{
    if ms.len() > 0 {
        let init = ms.drop_last();
        lemma_collect_texts(start, init);
        let before = collect_texts(start, init);
        let n = ms.len() - 1;
        let after = collect_texts(start, ms);
        let last_ok = vstd::utf8::valid_utf8(ms.last());
        let x = vstd::utf8::decode_utf8(ms.last());
        assert forall|t: Seq<char>| #[trigger] after.contains(t) <==> (before.contains(t) || (last_ok && x == t)) by {
            if last_ok && !before.contains(x) {
                let p = before.push(x);
                if p.contains(t) {
                    let j = choose|j: int| 0 <= j < p.len() && p[j] == t;
                    if j < before.len() {
                        assert(before[j] == t);
                    }
                }
                if before.contains(t) {
                    let j = choose|j: int| 0 <= j < before.len() && before[j] == t;
                    assert(p[j] == t);
                }
                if x == t {
                    assert(p[before.len() as int] == t);
                }
            }
        }
        assert forall|t: Seq<char>| #[trigger] text_among(ms, t) <==> (text_among(init, t) || (last_ok && x == t)) by {
            if text_among(ms, t) {
                let i = choose|i: int| 0 <= i < ms.len() && vstd::utf8::valid_utf8(#[trigger] ms[i]) && vstd::utf8::decode_utf8(ms[i]) == t;
                if i < n {
                    assert(init[i] == ms[i]);
                }
            }
            if text_among(init, t) {
                let i = choose|i: int| 0 <= i < init.len() && vstd::utf8::valid_utf8(#[trigger] init[i]) && vstd::utf8::decode_utf8(init[i]) == t;
                assert(ms[i] == init[i]);
            }
            if last_ok && x == t {
                assert(ms[n] == ms.last());
            }
        }
        if vstd::utf8::valid_utf8(ms.last()) {
            let x = vstd::utf8::decode_utf8(ms.last());
            if !before.contains(x) {
                let after = before.push(x);
                assert forall|i: int, j: int| 0 <= i < after.len() && 0 <= j < after.len() && i != j implies after[i] != after[j] by {
                    if i < before.len() && j < before.len() {
                    } else if i < before.len() {
                        assert(before.contains(after[i]));
                    } else {
                        assert(before.contains(after[j]));
                    }
                }
            }
        }
    }
}

fn collect_into(found: &mut Vec<String>, matches: &Vec<Vec<u8>>)
    ensures
        final(found)@.map_values(|t: String| t@) == collect_texts(
            old(found)@.map_values(|t: String| t@),
            matches@.map_values(|v: Vec<u8>| v@),
        ),
{
    let ghost start = found@.map_values(|t: String| t@);
    let ghost all = matches@.map_values(|v: Vec<u8>| v@);
    let mut i: usize = 0;
    while i < matches.len()
        invariant
            i <= matches@.len(),
            all == matches@.map_values(|v: Vec<u8>| v@),
            found@.map_values(|t: String| t@) == collect_texts(start, all.take(i as int)),
        decreases matches@.len() - i,
    {
        proof {
            assert(all.take(i + 1).drop_last() =~= all.take(i as int));
            assert(all.take(i + 1).last() == matches@[i as int]@);
        }
        match utf8_text(matches[i].as_slice()) {
            Some(text) => {
                let ghost before = found@.map_values(|t: String| t@);
                let mut present = false;
                let mut j: usize = 0;
                while j < found.len()
                    invariant
                        j <= found@.len(),
                        before == found@.map_values(|t: String| t@),
                        present == exists|m: int| 0 <= m < j && before[m] == text@,
                    decreases found@.len() - j,
                {
                    if found[j] == text {
                        present = true;
                    }
                    proof {
                        if present && !(exists|m: int| 0 <= m < j && before[m] == text@) {
                            assert(before[j as int] == text@);
                        }
                    }
                    j = j + 1;
                }
                proof {
                    if present {
                        let m = choose|m: int| 0 <= m < j && before[m] == text@;
                        assert(before.contains(text@));
                    } else {
                        assert(!before.contains(text@));
                    }
                }
                if !present {
                    found.push(text);
                    assert(found@.map_values(|t: String| t@) =~= before.push(text@));
                }
            },
            None => {},
        }
        i = i + 1;
    }
    assert(all.take(i as int) =~= all);
}

fn any_utf8(matches: &Vec<Vec<u8>>) -> (r: bool)
    ensures
        r == any_text(matches@.map_values(|v: Vec<u8>| v@)),
{
    let ghost all = matches@.map_values(|v: Vec<u8>| v@);
    let mut i: usize = 0;
    while i < matches.len()
        invariant
            i <= matches@.len(),
            all == matches@.map_values(|v: Vec<u8>| v@),
            forall|m: int| 0 <= m < i ==> !vstd::utf8::valid_utf8(#[trigger] all[m]),
        decreases matches@.len() - i,
    {
        match utf8_text(matches[i].as_slice()) {
            Some(_) => {
                assert(vstd::utf8::valid_utf8(all[i as int]));
                return true;
            },
            None => {},
        }
        i = i + 1;
    }
    false
}

/// Sweeps a buffer for e-mail and IPv4 strings (kept, each once) and for wallet
/// addresses and card numbers (raising threat tags); none if a pattern does not compile.
pub fn harvest(buffer: &[u8]) -> (r: Option<(Vec<String>, Vec<String>)>)
    ensures
        match r {
            Some((strings, tags)) => harvest_result(buffer@) == Some(
                (strings@.map_values(|t: String| t@), tags@.map_values(|t: String| t@)),
            ),
            None => harvest_result(buffer@) is None,
        },
        r is Some <==> (regex_matches(email_pattern(), buffer@) is Some && regex_matches(ipv4_pattern(), buffer@) is Some
            && regex_matches(bitcoin_pattern(), buffer@) is Some && regex_matches(card_pattern(), buffer@) is Some),
        r matches Some((strings, tags)) ==> {
            &&& tags@.map_values(|t: String| t@).contains("Credit_Card_Found"@) <==> some_text_match(
                card_pattern(),
                buffer@,
            )
            &&& tags@.map_values(|t: String| t@).contains("Crypto_Wallet_Found"@) <==> some_text_match(
                bitcoin_pattern(),
                buffer@,
            )
            &&& forall|k: int| 0 <= k < tags@.len() ==> (#[trigger] tags@[k])@ == "Credit_Card_Found"@ || tags@[k]@
                == "Crypto_Wallet_Found"@
            &&& strings@.map_values(|t: String| t@).no_duplicates()
            &&& forall|t: Seq<char>| #[trigger] texts(strings@).contains(t) <==> (is_text_match(
                email_pattern(),
                buffer@,
                t,
            ) || is_text_match(ipv4_pattern(), buffer@, t))
        },
{
    let email = find_matches("(?i)[a-z0-9._%+-]+@[a-z0-9.-]+\\.[a-z]{2,}", buffer)?;
    let ipv4 = find_matches("\\b(?:[0-9]{1,3}\\.){3}[0-9]{1,3}\\b", buffer)?;
    let btc = find_matches("\\b(bc1|[13])[a-zA-HJ-NP-Z0-9]{25,39}\\b", buffer)?;
    let card = find_matches("\\b(?:\\d[ -]*?){13,16}\\b", buffer)?;
    let mut strings: Vec<String> = Vec::new();
    assert(strings@.map_values(|t: String| t@) =~= Seq::<Seq<char>>::empty());
    collect_into(&mut strings, &email);
    collect_into(&mut strings, &ipv4);
    let mut tags: Vec<String> = Vec::new();
    if any_utf8(&btc) {
        tags.push(String::from_str("Crypto_Wallet_Found"));
    }
    if any_utf8(&card) {
        tags.push(String::from_str("Credit_Card_Found"));
    }
    assert(tags@.map_values(|t: String| t@) =~= if any_text(btc@.map_values(|v: Vec<u8>| v@)) {
        seq!["Crypto_Wallet_Found"@]
    } else {
        Seq::empty()
    } + if any_text(card@.map_values(|v: Vec<u8>| v@)) {
        seq!["Credit_Card_Found"@]
    } else {
        Seq::empty()
    });
    proof {
        reveal_strlit("Credit_Card_Found");
        reveal_strlit("Crypto_Wallet_Found");
        let tv = tags@.map_values(|t: String| t@);
        assert("Credit_Card_Found"@.len() != "Crypto_Wallet_Found"@.len());
        assert(tv.contains("Credit_Card_Found"@) ==> any_text(card@.map_values(|v: Vec<u8>| v@)));
        if any_text(card@.map_values(|v: Vec<u8>| v@)) {
            assert(tv[tv.len() - 1] == "Credit_Card_Found"@);
        }
        assert(tv.contains("Crypto_Wallet_Found"@) ==> any_text(btc@.map_values(|v: Vec<u8>| v@)));
        if any_text(btc@.map_values(|v: Vec<u8>| v@)) {
            assert(tv[0] == "Crypto_Wallet_Found"@);
        }
        let em = email@.map_values(|v: Vec<u8>| v@);
        let ip = ipv4@.map_values(|v: Vec<u8>| v@);
        lemma_collect_texts(Seq::empty(), em);
        lemma_collect_texts(collect_texts(Seq::empty(), em), ip);
        assert(texts(strings@) =~= strings@.map_values(|t: String| t@));
    }
    Some((strings, tags))
}

/// The gallery record of a harvest, when it found anything: type `REGEX_HARVEST_DATA`,
/// offset 0, size the number of strings, kept in memory only.
pub fn harvest_artifact(strings: Vec<String>, tags: Vec<String>) -> (r: Option<CarvedArtifact>)
    ensures
        (strings@.len() == 0 && tags@.len() == 0) <==> r is None,
        r matches Some(a) ==> {
            &&& a.file_type@ == "REGEX_HARVEST_DATA"@
            &&& a.start_offset == 0
            &&& a.size_bytes == strings@.len()
            &&& a.output_path@ == "MEMORY_ONLY"@
            &&& a.sha256_checksum@ == "N/A"@
            &&& !a.is_fragmented_candidate
            &&& a.confidence_permille == 1000
            &&& a.regex_strings@ == strings@
            &&& a.threat_tags@ == tags@
        },
{
    if strings.len() == 0 && tags.len() == 0 {
        return None;
    }
    let n = strings.len() as u64;
    Some(
        CarvedArtifact {
            file_type: String::from_str("REGEX_HARVEST_DATA"),
            start_offset: 0,
            size_bytes: n,
            output_path: String::from_str("MEMORY_ONLY"),
            sha256_checksum: String::from_str("N/A"),
            is_fragmented_candidate: false,
            confidence_permille: 1000,
            regex_strings: strings,
            threat_tags: tags,
        },
    )
}

} // verus!
