use vstd::prelude::*;

use crate::text::{bytes_contain, has_infix, occurs_at};
use vstd::utf8::encode_utf8;
use vstd::string::StringExecFns;

verus! {

/// A known malicious byte pattern.
#[derive(Debug)]
pub struct ThreatSignature {
    pub name: String,
    pub description: String,
    /// `CRITICAL`, `HIGH` or `MEDIUM`.
    pub severity: String,
    pub byte_pattern: Vec<u8>,
}

impl View for ThreatSignature {
    type V = (Seq<char>, Seq<char>, Seq<char>, Seq<u8>);

    /// Name, description, severity and pattern.
    open spec fn view(&self) -> Self::V {
        (self.name@, self.description@, self.severity@, self.byte_pattern@)
    }
}

/// The built-in signature catalogue, in scan order.
pub open spec fn builtin_signatures() -> Seq<(Seq<char>, Seq<char>, Seq<char>, Seq<u8>)> {
    seq![
        (
            "WannaCry_Ransomware_Marker"@,
            "WannaCry WanaCrypt0r File Marker"@,
            "CRITICAL"@,
            vstd::utf8::encode_utf8("WanaCrypt0r"@),
        ),
        (
            "Ryuk_Ransomware_Marker"@,
            "Ryuk Hermes Ransomware Marker"@,
            "CRITICAL"@,
            vstd::utf8::encode_utf8("HERMES"@),
        ),
        (
            "LockBit_Ransomware"@,
            "LockBit 3.0 Ransomware Note Marker"@,
            "CRITICAL"@,
            vstd::utf8::encode_utf8("LockBit_Ransomware"@),
        ),
        (
            "Emotet_Dropper_Macro"@,
            "Emotet Malicious Office Macro Signature"@,
            "HIGH"@,
            vstd::utf8::encode_utf8("AutoOpen"@),
        ),
        (
            "XMRig_CoinMiner"@,
            "XMRig Monero CPU Miner"@,
            "HIGH"@,
            vstd::utf8::encode_utf8("stratum+tcp://"@),
        ),
        (
            "Mimikatz_Credential_Dumper"@,
            "Mimikatz sekurlsa::logonpasswords output"@,
            "CRITICAL"@,
            vstd::utf8::encode_utf8("mimikatz"@),
        ),
    ]
}

/// The report line for a signature: `severity: name`.
pub open spec fn detection_line(sig: (Seq<char>, Seq<char>, Seq<char>, Seq<u8>)) -> Seq<char> {
    sig.2 + ": "@ + sig.0
}

/// The report lines, in catalogue order, of the signatures whose pattern occurs in `data`.
pub open spec fn detections(sigs: Seq<(Seq<char>, Seq<char>, Seq<char>, Seq<u8>)>, data: Seq<u8>) -> Seq<
    Seq<char>,
>
    decreases sigs.len(),
{
    if sigs.len() == 0 {
        Seq::empty()
    } else {
        let rest = detections(sigs.drop_last(), data);
        if has_infix(data, sigs.last().3) {
            rest.push(detection_line(sigs.last()))
        } else {
            rest
        }
    }
}

/// One of the three severities a signature can carry.
pub open spec fn known_severity(severity: Seq<char>) -> bool {
    severity == "CRITICAL"@ || severity == "HIGH"@ || severity == "MEDIUM"@
}

/// A usable catalogue: every pattern is non-empty, every severity is a known one, and no
/// two signatures share a name.
pub open spec fn catalogue_ok(sigs: Seq<(Seq<char>, Seq<char>, Seq<char>, Seq<u8>)>) -> bool {
    &&& forall|k: int| 0 <= k < sigs.len() ==> (#[trigger] sigs[k]).3.len() > 0 && known_severity(sigs[k].2)
    &&& forall|j: int, k: int| 0 <= j < k < sigs.len() ==> (#[trigger] sigs[j]).0 != (#[trigger] sigs[k]).0
}

/// A scanner that matches payloads against a signature catalogue.
pub struct ThreatEngine {
    signatures: Vec<ThreatSignature>,
}

impl View for ThreatEngine {
    type V = Seq<(Seq<char>, Seq<char>, Seq<char>, Seq<u8>)>;

    /// The catalogue, in scan order.
    closed spec fn view(&self) -> Self::V {
        self.signatures@.map_values(|s: ThreatSignature| s@)
    }
}

impl ThreatEngine {
    /// Every engine carries a usable catalogue.
    #[verifier::type_invariant]
    spec fn well_formed(&self) -> bool {
        catalogue_ok(self@)
    }
}

proof fn lemma_encoded_nonempty(s: Seq<char>)
    requires
        s.len() > 0,
    ensures
        vstd::utf8::encode_utf8(s).len() > 0,
{
    assert(vstd::utf8::encode_scalar(s[0] as u32).len() > 0);
}

/// The built-in catalogue is usable.
pub proof fn lemma_builtin_catalogue_ok()
    ensures
        catalogue_ok(builtin_signatures()),
{
    reveal_strlit("WannaCry_Ransomware_Marker");
    reveal_strlit("Ryuk_Ransomware_Marker");
    reveal_strlit("LockBit_Ransomware");
    reveal_strlit("Emotet_Dropper_Macro");
    reveal_strlit("XMRig_CoinMiner");
    reveal_strlit("Mimikatz_Credential_Dumper");
    reveal_strlit("WanaCrypt0r");
    reveal_strlit("HERMES");
    reveal_strlit("AutoOpen");
    reveal_strlit("stratum+tcp://");
    reveal_strlit("mimikatz");
    lemma_encoded_nonempty("WanaCrypt0r"@);
    lemma_encoded_nonempty("HERMES"@);
    lemma_encoded_nonempty("LockBit_Ransomware"@);
    lemma_encoded_nonempty("AutoOpen"@);
    lemma_encoded_nonempty("stratum+tcp://"@);
    lemma_encoded_nonempty("mimikatz"@);
    let sigs = builtin_signatures();
    assert forall|j: int, k: int| 0 <= j < k < sigs.len() implies (#[trigger] sigs[j]).0 != (#[trigger] sigs[k]).0 by {
        assert(sigs[j].0[0] != sigs[k].0[0]);
    }
}

fn signature(name: &str, description: &str, severity: &str, pattern: &str) -> (s: ThreatSignature)
    ensures
        s@ == (name@, description@, severity@, vstd::utf8::encode_utf8(pattern@)),
{
    ThreatSignature {
        name: String::from_str(name),
        description: String::from_str(description),
        severity: String::from_str(severity),
        byte_pattern: vstd::slice::slice_to_vec(pattern.as_bytes()),
    }
}

impl ThreatEngine {
    /// A scanner with the built-in catalogue: ransomware markers (WannaCry, Ryuk, LockBit),
    /// the Emotet macro, the XMRig miner and Mimikatz.
    pub fn new() -> (engine: Self)
        ensures
            engine@ == builtin_signatures(),
            catalogue_ok(engine@),
    {
        let mut signatures: Vec<ThreatSignature> = Vec::new();
        signatures.push(
            signature("WannaCry_Ransomware_Marker", "WannaCry WanaCrypt0r File Marker", "CRITICAL", "WanaCrypt0r"),
        );
        signatures.push(signature("Ryuk_Ransomware_Marker", "Ryuk Hermes Ransomware Marker", "CRITICAL", "HERMES"));
        signatures.push(
            signature("LockBit_Ransomware", "LockBit 3.0 Ransomware Note Marker", "CRITICAL", "LockBit_Ransomware"),
        );
        signatures.push(
            signature("Emotet_Dropper_Macro", "Emotet Malicious Office Macro Signature", "HIGH", "AutoOpen"),
        );
        signatures.push(signature("XMRig_CoinMiner", "XMRig Monero CPU Miner", "HIGH", "stratum+tcp://"));
        signatures.push(
            signature(
                "Mimikatz_Credential_Dumper",
                "Mimikatz sekurlsa::logonpasswords output",
                "CRITICAL",
                "mimikatz",
            ),
        );
        proof {
            lemma_builtin_catalogue_ok();
            assert(signatures@.map_values(|s: ThreatSignature| s@) =~= builtin_signatures());
        }
        ThreatEngine { signatures }
    }

    /// Scans a payload (such as a carved file) and reports `severity: name` for every
    /// signature whose pattern occurs in it, in catalogue order.
    pub fn scan_payload(&self, data: &[u8]) -> (threats: Vec<String>)
        ensures
            threats@.map_values(|t: String| t@) == detections(self@, data@),
            catalogue_ok(self@),
    {
        proof {
            use_type_invariant(self);
        }
        let mut threats: Vec<String> = Vec::new();
        let mut k: usize = 0;
        while k < self.signatures.len()
            invariant
                k <= self.signatures@.len(),
                self@ == self.signatures@.map_values(|s: ThreatSignature| s@),
                threats@.map_values(|t: String| t@) == detections(self@.take(k as int), data@),
            decreases self.signatures@.len() - k,
        {
            let sig = &self.signatures[k];
            proof {
                assert(self@.take(k + 1).drop_last() =~= self@.take(k as int));
                assert(self@.take(k + 1).last() == sig@);
            }
            if Self::contains_subslice(data, sig.byte_pattern.as_slice()) {
                let mut line = String::from_str(sig.severity.as_str());
                line.append(": ");
                line.append(sig.name.as_str());
                let ghost before = threats@.map_values(|t: String| t@);
                threats.push(line);
                assert(threats@.map_values(|t: String| t@) =~= before.push(detection_line(sig@)));
            }
            k = k + 1;
        }
        assert(self@.take(k as int) =~= self@);
        threats
    }

    /// Whether `needle` occurs in `haystack`; an empty needle always does.
    pub fn contains_subslice(haystack: &[u8], needle: &[u8]) -> (r: bool)
        ensures
            r == has_infix(haystack@, needle@),
    {
        if needle.len() == 0 {
            assert(haystack@.subrange(0, 0) =~= needle@);
            assert(crate::text::occurs_at(haystack@, needle@, 0));
            return true;
        }
        if haystack.len() < needle.len() {
            assert(forall|i: int| !crate::text::occurs_at(haystack@, needle@, i));
            return false;
        }
        bytes_contain(haystack, needle)
    }
}

/// A payload is reported for exactly the signatures whose pattern occurs in it: a
/// reported line names a matching signature, and every matching signature is reported.
pub proof fn law_detections_match_patterns(
    sigs: Seq<(Seq<char>, Seq<char>, Seq<char>, Seq<u8>)>,
    data: Seq<u8>,
    k: int,
)
    requires
        0 <= k < sigs.len(),
    ensures
        has_infix(data, sigs[k].3) ==> detections(sigs, data).contains(detection_line(sigs[k])),
        detections(sigs, data).len() <= sigs.len(),
    decreases sigs.len(),
{
    lemma_detections_len(sigs, data);
    if k < sigs.len() - 1 {
        law_detections_match_patterns(sigs.drop_last(), data, k);
        assert(sigs.drop_last()[k] == sigs[k]);
        let rest = detections(sigs.drop_last(), data);
        if has_infix(data, sigs[k].3) {
            let j = choose|j: int| 0 <= j < rest.len() && rest[j] == detection_line(sigs[k]);
            if has_infix(data, sigs.last().3) {
                assert(rest.push(detection_line(sigs.last()))[j] == detection_line(sigs[k]));
            }
        }
    } else {
        if has_infix(data, sigs[k].3) {
            let all = detections(sigs, data);
            assert(all[all.len() - 1] == detection_line(sigs[k]));
        }
    }
}

/// `line` is the report line of a signature of `sigs` whose pattern occurs in `data`.
pub open spec fn line_of_match(
    sigs: Seq<(Seq<char>, Seq<char>, Seq<char>, Seq<u8>)>,
    data: Seq<u8>,
    line: Seq<char>,
) -> bool {
    exists|k: int| 0 <= k < sigs.len() && has_infix(data, sigs[k].3) && line == detection_line(sigs[k])
}

proof fn lemma_detections_sound(sigs: Seq<(Seq<char>, Seq<char>, Seq<char>, Seq<u8>)>, data: Seq<u8>)
    ensures
        forall|i: int|
            0 <= i < detections(sigs, data).len() ==> line_of_match(sigs, data, #[trigger] detections(sigs, data)[i]),
    decreases sigs.len(),
{
    if sigs.len() > 0 {
        let init = sigs.drop_last();
        lemma_detections_sound(init, data);
        let rest = detections(init, data);
        let all = detections(sigs, data);
        assert forall|i: int| 0 <= i < all.len() implies line_of_match(sigs, data, #[trigger] all[i]) by {
            if i < rest.len() {
                assert(all[i] == rest[i]);
                assert(line_of_match(init, data, rest[i]));
                let k = choose|k: int|
                    0 <= k < init.len() && has_infix(data, init[k].3) && rest[i] == detection_line(init[k]);
                assert(init[k] == sigs[k]);
            } else {
                let k = sigs.len() - 1;
                assert(sigs[k] == sigs.last());
                assert(has_infix(data, sigs.last().3));
                assert(all == rest.push(detection_line(sigs.last())));
                assert(all[i] == detection_line(sigs[k]));
            }
        }
    }
}

/// With a usable catalogue, the line of signature `k` is reported only when its pattern
/// occurs in the payload.
proof fn lemma_reported_marker_occurs(sigs: Seq<(Seq<char>, Seq<char>, Seq<char>, Seq<u8>)>, data: Seq<u8>, k: int)
    requires
        catalogue_ok(sigs),
        0 <= k < sigs.len(),
        detections(sigs, data).contains(detection_line(sigs[k])),
    ensures
        has_infix(data, sigs[k].3),
{
    lemma_detections_sound(sigs, data);
    let d = detections(sigs, data);
    let i = choose|i: int| 0 <= i < d.len() && d[i] == detection_line(sigs[k]);
    assert(line_of_match(sigs, data, d[i]));
    let m = choose|m: int| 0 <= m < sigs.len() && has_infix(data, sigs[m].3) && d[i] == detection_line(sigs[m]);
    assert(known_severity(sigs[k].2) && known_severity(sigs[m].2));
    lemma_detection_line_names(sigs[k], sigs[m]);
    if m != k {
        if m < k {
            assert(sigs[m].0 != sigs[k].0);
        } else {
            assert(sigs[k].0 != sigs[m].0);
        }
    }
}

/// One of the six report lines of the documented catalogue.
pub open spec fn documented_report_line(line: Seq<char>) -> bool {
    ||| line == "CRITICAL: WannaCry_Ransomware_Marker"@
    ||| line == "CRITICAL: Ryuk_Ransomware_Marker"@
    ||| line == "CRITICAL: LockBit_Ransomware"@
    ||| line == "HIGH: Emotet_Dropper_Macro"@
    ||| line == "HIGH: XMRig_CoinMiner"@
    ||| line == "CRITICAL: Mimikatz_Credential_Dumper"@
}

/// The built-in catalogue reports each documented marker: a payload is reported with a
/// signature's severity and name exactly when it holds the bytes of that signature's
/// marker.
pub proof fn law_builtin_markers_detected(data: Seq<u8>)
    ensures
        detections(builtin_signatures(), data).contains("CRITICAL: WannaCry_Ransomware_Marker"@) <==> has_infix(
            data,
            encode_utf8("WanaCrypt0r"@),
        ),
        detections(builtin_signatures(), data).contains("CRITICAL: Ryuk_Ransomware_Marker"@) <==> has_infix(
            data,
            encode_utf8("HERMES"@),
        ),
        detections(builtin_signatures(), data).contains("CRITICAL: LockBit_Ransomware"@) <==> has_infix(
            data,
            encode_utf8("LockBit_Ransomware"@),
        ),
        detections(builtin_signatures(), data).contains("HIGH: Emotet_Dropper_Macro"@) <==> has_infix(
            data,
            encode_utf8("AutoOpen"@),
        ),
        detections(builtin_signatures(), data).contains("HIGH: XMRig_CoinMiner"@) <==> has_infix(
            data,
            encode_utf8("stratum+tcp://"@),
        ),
        detections(builtin_signatures(), data).contains("CRITICAL: Mimikatz_Credential_Dumper"@) <==> has_infix(
            data,
            encode_utf8("mimikatz"@),
        ),
        forall|i: int|
            0 <= i < detections(builtin_signatures(), data).len() ==> documented_report_line(
                #[trigger] detections(builtin_signatures(), data)[i],
            ),
{
    reveal_strlit(": ");
    reveal_strlit("AutoOpen");
    reveal_strlit("CRITICAL");
    reveal_strlit("CRITICAL: LockBit_Ransomware");
    reveal_strlit("CRITICAL: Mimikatz_Credential_Dumper");
    reveal_strlit("CRITICAL: Ryuk_Ransomware_Marker");
    reveal_strlit("CRITICAL: WannaCry_Ransomware_Marker");
    reveal_strlit("Emotet_Dropper_Macro");
    reveal_strlit("HERMES");
    reveal_strlit("HIGH");
    reveal_strlit("HIGH: Emotet_Dropper_Macro");
    reveal_strlit("HIGH: XMRig_CoinMiner");
    reveal_strlit("LockBit_Ransomware");
    reveal_strlit("Mimikatz_Credential_Dumper");
    reveal_strlit("Ryuk_Ransomware_Marker");
    reveal_strlit("WanaCrypt0r");
    reveal_strlit("WannaCry_Ransomware_Marker");
    reveal_strlit("XMRig_CoinMiner");
    reveal_strlit("mimikatz");
    reveal_strlit("stratum+tcp://");
    let sigs = builtin_signatures();
    lemma_builtin_catalogue_ok();
    law_detections_match_patterns(sigs, data, 0);
    assert(detection_line(sigs[0]) =~= "CRITICAL: WannaCry_Ransomware_Marker"@);
    if detections(sigs, data).contains("CRITICAL: WannaCry_Ransomware_Marker"@) {
        lemma_reported_marker_occurs(sigs, data, 0);
    }
    law_detections_match_patterns(sigs, data, 1);
    assert(detection_line(sigs[1]) =~= "CRITICAL: Ryuk_Ransomware_Marker"@);
    if detections(sigs, data).contains("CRITICAL: Ryuk_Ransomware_Marker"@) {
        lemma_reported_marker_occurs(sigs, data, 1);
    }
    law_detections_match_patterns(sigs, data, 2);
    assert(detection_line(sigs[2]) =~= "CRITICAL: LockBit_Ransomware"@);
    if detections(sigs, data).contains("CRITICAL: LockBit_Ransomware"@) {
        lemma_reported_marker_occurs(sigs, data, 2);
    }
    law_detections_match_patterns(sigs, data, 3);
    assert(detection_line(sigs[3]) =~= "HIGH: Emotet_Dropper_Macro"@);
    if detections(sigs, data).contains("HIGH: Emotet_Dropper_Macro"@) {
        lemma_reported_marker_occurs(sigs, data, 3);
    }
    law_detections_match_patterns(sigs, data, 4);
    assert(detection_line(sigs[4]) =~= "HIGH: XMRig_CoinMiner"@);
    if detections(sigs, data).contains("HIGH: XMRig_CoinMiner"@) {
        lemma_reported_marker_occurs(sigs, data, 4);
    }
    law_detections_match_patterns(sigs, data, 5);
    assert(detection_line(sigs[5]) =~= "CRITICAL: Mimikatz_Credential_Dumper"@);
    if detections(sigs, data).contains("CRITICAL: Mimikatz_Credential_Dumper"@) {
        lemma_reported_marker_occurs(sigs, data, 5);
    }
    lemma_detections_sound(sigs, data);
    assert forall|i: int| 0 <= i < detections(sigs, data).len() implies documented_report_line(
        #[trigger] detections(sigs, data)[i],
    ) by {
        assert(line_of_match(sigs, data, detections(sigs, data)[i]));
    }
}

/// `x` can be had from `y` by leaving out elements, the rest kept in order.
pub open spec fn is_subsequence<T>(x: Seq<T>, y: Seq<T>) -> bool
    decreases y.len(),
{
    if x.len() == 0 {
        true
    } else if y.len() == 0 {
        false
    } else {
        (x.last() == y.last() && is_subsequence(x.drop_last(), y.drop_last())) || is_subsequence(
            x,
            y.drop_last(),
        )
    }
}

proof fn lemma_detections_monotone(
    sigs: Seq<(Seq<char>, Seq<char>, Seq<char>, Seq<u8>)>,
    a: Seq<u8>,
    c: Seq<u8>,
)
    requires
        forall|k: int| 0 <= k < sigs.len() && has_infix(a, #[trigger] sigs[k].3) ==> has_infix(c, sigs[k].3),
    ensures
        is_subsequence(detections(sigs, a), detections(sigs, c)),
    decreases sigs.len(),
{
    if sigs.len() > 0 {
        let init = sigs.drop_last();
        assert forall|k: int| 0 <= k < init.len() && has_infix(a, #[trigger] init[k].3) implies has_infix(
            c,
            init[k].3,
        ) by {
            assert(init[k] == sigs[k]);
        }
        lemma_detections_monotone(init, a, c);
        let x = detections(init, a);
        let y = detections(init, c);
        let l = detection_line(sigs.last());
        assert(sigs[sigs.len() - 1] == sigs.last());
        if has_infix(a, sigs.last().3) {
            assert(x.push(l).drop_last() =~= x);
            assert(y.push(l).drop_last() =~= y);
        } else if has_infix(c, sigs.last().3) {
            assert(y.push(l).drop_last() =~= y);
        }
    }
}

proof fn lemma_infix_extends(a: Seq<u8>, b: Seq<u8>, p: Seq<u8>)
    requires
        has_infix(a, p),
    ensures
        has_infix(a + b, p),
        has_infix(b + a, p),
{
    let i = choose|i: int| occurs_at(a, p, i);
    assert((a + b).subrange(i, i + p.len()) =~= a.subrange(i, i + p.len()));
    assert(occurs_at(a + b, p, i));
    assert((b + a).subrange(b.len() + i, b.len() + i + p.len()) =~= a.subrange(i, i + p.len()));
    assert(occurs_at(b + a, p, b.len() + i));
}

/// Adding bytes to a payload, before or after it, never loses a report: the reports for
/// `a` are a subsequence of those for `a` followed by `b`, and of those for `b`
/// followed by `a`.
pub proof fn law_detections_grow(sigs: Seq<(Seq<char>, Seq<char>, Seq<char>, Seq<u8>)>, a: Seq<u8>, b: Seq<u8>)
    ensures
        is_subsequence(detections(sigs, a), detections(sigs, a + b)),
        is_subsequence(detections(sigs, a), detections(sigs, b + a)),
{
    assert forall|k: int| 0 <= k < sigs.len() && has_infix(a, #[trigger] sigs[k].3) implies has_infix(
        a + b,
        sigs[k].3,
    ) && has_infix(b + a, sigs[k].3) by {
        lemma_infix_extends(a, b, sigs[k].3);
    }
    lemma_detections_monotone(sigs, a, a + b);
    lemma_detections_monotone(sigs, a, b + a);
}

proof fn lemma_detection_line_names(
    s1: (Seq<char>, Seq<char>, Seq<char>, Seq<u8>),
    s2: (Seq<char>, Seq<char>, Seq<char>, Seq<u8>),
)
    requires
        known_severity(s1.2),
        known_severity(s2.2),
        detection_line(s1) == detection_line(s2),
    ensures
        s1.0 == s2.0,
{
    reveal_strlit("CRITICAL");
    reveal_strlit("HIGH");
    reveal_strlit("MEDIUM");
    reveal_strlit(": ");
    let l = detection_line(s1);
    assert(l[0] == s1.2[0]);
    assert(l[0] == s2.2[0]);
    assert(s1.2 == s2.2);
    let n = s1.2.len() + 2;
    assert(s1.0 =~= l.subrange(n as int, l.len() as int));
    assert(s2.0 =~= detection_line(s2).subrange(n as int, l.len() as int));
}

proof fn lemma_detections_from_catalogue(sigs: Seq<(Seq<char>, Seq<char>, Seq<char>, Seq<u8>)>, data: Seq<u8>)
    requires
        catalogue_ok(sigs),
    ensures
        detections(sigs, data).no_duplicates(),
        forall|i: int|
            0 <= i < detections(sigs, data).len() ==> exists|k: int|
                0 <= k < sigs.len() && #[trigger] detections(sigs, data)[i] == detection_line(sigs[k]),
    decreases sigs.len(),
{
    if sigs.len() > 0 {
        let init = sigs.drop_last();
        assert forall|k: int| 0 <= k < init.len() implies (#[trigger] init[k]).3.len() > 0 && known_severity(
            init[k].2,
        ) by {
            assert(init[k] == sigs[k]);
        }
        assert forall|j: int, k: int| 0 <= j < k < init.len() implies (#[trigger] init[j]).0 != (#[trigger] init[
            k]).0 by {
            assert(init[j] == sigs[j]);
            assert(init[k] == sigs[k]);
        }
        lemma_detections_from_catalogue(init, data);
        let rest = detections(init, data);
        let last = sigs[sigs.len() - 1];
        assert(last == sigs.last());
        assert forall|i: int| 0 <= i < rest.len() implies exists|k: int|
            0 <= k < sigs.len() && #[trigger] rest[i] == detection_line(sigs[k]) by {
            let k = choose|k: int| 0 <= k < init.len() && rest[i] == detection_line(init[k]);
            assert(init[k] == sigs[k]);
        }
        if has_infix(data, last.3) {
            let all = rest.push(detection_line(last));
            assert forall|i: int| 0 <= i < rest.len() implies rest[i] != detection_line(last) by {
                let k = choose|k: int| 0 <= k < init.len() && rest[i] == detection_line(init[k]);
                assert(init[k] == sigs[k]);
                if rest[i] == detection_line(last) {
                    lemma_detection_line_names(sigs[k], last);
                    assert(sigs[k].0 != sigs[sigs.len() - 1].0);
                }
            }
            assert forall|i: int, j: int| 0 <= i < all.len() && 0 <= j < all.len() && i != j implies all[i]
                != all[j] by {
                if i < rest.len() && j < rest.len() {
                    assert(all[i] == rest[i] && all[j] == rest[j]);
                } else if i < rest.len() {
                    assert(all[i] == rest[i]);
                } else if j < rest.len() {
                    assert(all[j] == rest[j]);
                }
            }
            assert forall|i: int| 0 <= i < all.len() implies exists|k: int|
                0 <= k < sigs.len() && #[trigger] all[i] == detection_line(sigs[k]) by {
                if i < rest.len() {
                    assert(all[i] == rest[i]);
                } else {
                    assert(all[i] == detection_line(sigs[sigs.len() - 1]));
                }
            }
        }
    }
}

/// With a usable catalogue, no report line is given twice for one payload.
pub proof fn law_detections_distinct(sigs: Seq<(Seq<char>, Seq<char>, Seq<char>, Seq<u8>)>, data: Seq<u8>)
    requires
        catalogue_ok(sigs),
    ensures
        detections(sigs, data).no_duplicates(),
{
    lemma_detections_from_catalogue(sigs, data);
}

proof fn lemma_detections_len(sigs: Seq<(Seq<char>, Seq<char>, Seq<char>, Seq<u8>)>, data: Seq<u8>)
    ensures
        detections(sigs, data).len() <= sigs.len(),
    decreases sigs.len(),
{
    if sigs.len() > 0 {
        lemma_detections_len(sigs.drop_last(), data);
    }
}

} // verus!
