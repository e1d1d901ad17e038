//! Health audit of local SSH keys: weak algorithms, old keys, public keys
//! without a private key.
use vstd::prelude::*;

use crate::models::{LocalKey, LocalKeyView};
use crate::text::{contains, contains_str, decimal, lower, owned, push_decimal, str_eq, to_lowercase_ascii};

verus! {

/// Severity of a health finding, from harmless to most serious.
#[derive(Clone, Copy, Debug, PartialEq, Eq, Structural, PartialOrd, Ord, Hash)]
pub enum Severity {
    Good,
    Info,
    Warn,
    Critical,
}

impl Severity {
    /// Position in the order `Good < Info < Warn < Critical`.
    pub open spec fn spec_rank(self) -> nat {
        match self {
            Severity::Good => 0,
            Severity::Info => 1,
            Severity::Warn => 2,
            Severity::Critical => 3,
        }
    }

    pub fn rank(&self) -> (r: u8)
        ensures
            r as nat == self.spec_rank(),
    {
        match self {
            Severity::Good => 0,
            Severity::Info => 1,
            Severity::Warn => 2,
            Severity::Critical => 3,
        }
    }

    pub open spec fn spec_label(self) -> Seq<char> {
        match self {
            Severity::Good => "GOOD"@,
            Severity::Info => "INFO"@,
            Severity::Warn => "WARN"@,
            Severity::Critical => "CRIT"@,
        }
    }

    /// The short tag shown for this severity.
    pub fn label(&self) -> (r: String)
        ensures
            r@ == self.spec_label(),
    {
        match self {
            Severity::Good => owned("GOOD"),
            Severity::Info => owned("INFO"),
            Severity::Warn => owned("WARN"),
            Severity::Critical => owned("CRIT"),
        }
    }
}

/// A single finding of a key health audit.
#[derive(Debug)]
pub struct Finding {
    pub severity: Severity,
    pub key_name: String,
    pub message: String,
}

pub struct FindingView {
    pub severity: Severity,
    pub key_name: Seq<char>,
    pub message: Seq<char>,
}

impl View for Finding {
    type V = FindingView;

    open spec fn view(&self) -> FindingView {
        FindingView { severity: self.severity, key_name: self.key_name@, message: self.message@ }
    }
}

impl Clone for Finding {
    fn clone(&self) -> (r: Self)
        ensures
            r == *self,
    {
        Finding {
            severity: self.severity,
            key_name: self.key_name.clone(),
            message: self.message.clone(),
        }
    }
}

pub open spec fn finding_text(f: FindingView) -> Seq<char> {
    "["@ + f.severity.spec_label() + "] "@ + f.key_name + ": "@ + f.message
}

impl Finding {
    /// `[SEVERITY] key: message`.
    pub fn to_text(&self) -> (r: String)
        ensures
            r@ == finding_text(self@),
    {
        let mut r = owned("[");
        let label = self.severity.label();
        r.append(label.as_str());
        r.append("] ");
        r.append(self.key_name.as_str());
        r.append(": ");
        r.append(self.message.as_str());
        r
    }
}

pub open spec fn findings_view(v: Seq<Finding>) -> Seq<FindingView> {
    v.map_values(|f: Finding| f@)
}

pub open spec fn keys_view(v: Seq<LocalKey>) -> Seq<LocalKeyView> {
    v.map_values(|k: LocalKey| k@)
}

pub open spec fn finding(severity: Severity, key_name: Seq<char>, message: Seq<char>) -> FindingView {
    FindingView { severity, key_name, message }
}

/// The algorithm names a DSA key.
pub open spec fn is_dsa(algorithm: Seq<char>) -> bool {
    let l = lower(algorithm);
    (contains(l, "dsa"@) || contains(l, "dss"@)) && !contains(l, "ecdsa"@)
}

/// The severity given to an RSA key: its size cannot be read from the
/// fingerprint, so it is always a warning.
pub open spec fn rsa_severity(fingerprint: Seq<char>) -> Severity {
    Severity::Warn
}

pub open spec fn rsa_message(severity: Severity, algorithm: Seq<char>) -> Seq<char> {
    match severity {
        Severity::Critical => "RSA key with potentially weak key size ("@ + algorithm
            + "). RSA keys should be at least 3072 bits. Prefer ed25519."@,
        Severity::Warn => "RSA key ("@ + algorithm
            + "). Consider migrating to ed25519 for better security and performance."@,
        _ => "RSA key ("@ + algorithm + ") \u{2014} acceptable but ed25519 is preferred."@,
    }
}

/// The finding about a key's algorithm.
pub open spec fn algorithm_finding(key: LocalKeyView) -> FindingView {
    let l = lower(key.algorithm);
    if is_dsa(key.algorithm) {
        finding(
            Severity::Critical,
            key.name,
            "DSA key detected ("@ + key.algorithm
                + "). DSA is deprecated and considered insecure. Generate an ed25519 key as replacement."@,
        )
    } else if contains(l, "rsa"@) {
        let severity = rsa_severity(key.fingerprint);
        finding(severity, key.name, rsa_message(severity, key.algorithm))
    } else if contains(l, "ecdsa"@) {
        finding(
            Severity::Info,
            key.name,
            "ECDSA key ("@ + key.algorithm
                + "). Acceptable, though ed25519 is generally preferred."@,
        )
    } else if contains(l, "ed25519"@) {
        finding(
            Severity::Good,
            key.name,
            "ed25519 key ("@ + key.algorithm
                + ") \u{2014} excellent choice. Modern, fast, and secure."@,
        )
    } else {
        finding(
            Severity::Warn,
            key.name,
            "Unknown key algorithm: "@ + key.algorithm + ". Verify this is acceptable."@,
        )
    }
}

/// The finding about a key's age in days, if it is more than a year old.
pub open spec fn age_finding(key_name: Seq<char>, days: nat) -> Option<FindingView> {
    if days > 730 {
        Some(
            finding(
                Severity::Warn,
                key_name,
                "Key is ~"@ + decimal(days) + " days old (>"@ + decimal(days / 365)
                    + " years). Consider rotating for security hygiene."@,
            ),
        )
    } else if days > 365 {
        Some(
            finding(
                Severity::Info,
                key_name,
                "Key is ~"@ + decimal(days) + " days old (>1 year). Rotation recommended annually."@,
            ),
        )
    } else {
        None
    }
}

/// The finding about a public key whose private key is missing.
pub open spec fn private_key_finding(key: LocalKeyView) -> Option<FindingView> {
    if key.private_key_path is None {
        Some(
            finding(
                Severity::Warn,
                key.name,
                "Public key exists but no matching private key found. This key cannot be used for authentication from this host."@,
            ),
        )
    } else {
        None
    }
}

pub open spec fn opt_seq<A>(o: Option<A>) -> Seq<A> {
    match o {
        Some(a) => seq![a],
        None => seq![],
    }
}

/// The findings about one key: algorithm, then age, then private key.
pub open spec fn key_findings(key: LocalKeyView, age_days: Option<u64>) -> Seq<FindingView> {
    seq![algorithm_finding(key)] + opt_seq(
        match age_days {
            Some(d) => age_finding(key.name, d as nat),
            None => None,
        },
    ) + opt_seq(private_key_finding(key))
}

/// The findings about all keys, key by key, in order.
pub open spec fn raw_findings(keys: Seq<LocalKeyView>, ages: Seq<Option<u64>>) -> Seq<FindingView>
    decreases keys.len(),
{
    if keys.len() == 0 {
        seq![]
    } else {
        raw_findings(keys.drop_last(), ages.drop_last()) + key_findings(
            keys.last(),
            ages[keys.len() - 1],
        )
    }
}

/// The finding reported when there is no key at all.
pub open spec fn no_keys_finding() -> FindingView {
    finding(
        Severity::Info,
        "(none)"@,
        "No local SSH keys found. Generate one with 'g' in the Keys tab."@,
    )
}

/// The findings of severity `s`, in their order in `fs`.
pub open spec fn of_severity(fs: Seq<FindingView>, s: Severity) -> Seq<FindingView>
    decreases fs.len(),
{
    if fs.len() == 0 {
        seq![]
    } else if fs.last().severity == s {
        of_severity(fs.drop_last(), s).push(fs.last())
    } else {
        of_severity(fs.drop_last(), s)
    }
}

/// A stable sort of `fs` by severity, worst first.
pub open spec fn worst_first(fs: Seq<FindingView>) -> Seq<FindingView> {
    of_severity(fs, Severity::Critical) + of_severity(fs, Severity::Warn) + of_severity(
        fs,
        Severity::Info,
    ) + of_severity(fs, Severity::Good)
}

/// The audit of `keys`, where `ages[i]` is the age in days of key `i`'s
/// public key file when it could be read.
pub open spec fn audit(keys: Seq<LocalKeyView>, ages: Seq<Option<u64>>) -> Seq<FindingView> {
    let raw = raw_findings(keys, ages);
    worst_first(
        if keys.len() == 0 {
            raw.push(no_keys_finding())
        } else {
            raw
        },
    )
}

fn estimate_rsa_severity(fingerprint: &str) -> (r: Severity)
    ensures
        r == rsa_severity(fingerprint@),
{
    if str_eq(fingerprint, "-") {
        return Severity::Warn;
    }
    Severity::Warn
}

fn audit_algorithm(key: &LocalKey, findings: &mut Vec<Finding>)
    ensures
        findings_view(final(findings)@) == findings_view(old(findings)@).push(algorithm_finding(key@)),
{
    let algo_lower = to_lowercase_ascii(key.algorithm.as_str());
    let alg = key.algorithm.as_str();
    let f = if (contains_str(algo_lower.as_str(), "dsa") || contains_str(algo_lower.as_str(), "dss"))
        && !contains_str(algo_lower.as_str(), "ecdsa") {
        let mut m = owned("DSA key detected (");
        m.append(alg);
        m.append(
            "). DSA is deprecated and considered insecure. Generate an ed25519 key as replacement.",
        );
        Finding { severity: Severity::Critical, key_name: key.name.clone(), message: m }
    } else if contains_str(algo_lower.as_str(), "rsa") {
        let severity = estimate_rsa_severity(key.fingerprint.as_str());
        let m = match severity {
            Severity::Critical => {
                let mut m = owned("RSA key with potentially weak key size (");
                m.append(alg);
                m.append("). RSA keys should be at least 3072 bits. Prefer ed25519.");
                m
            },
            Severity::Warn => {
                let mut m = owned("RSA key (");
                m.append(alg);
                m.append("). Consider migrating to ed25519 for better security and performance.");
                m
            },
            _ => {
                let mut m = owned("RSA key (");
                m.append(alg);
                m.append(") \u{2014} acceptable but ed25519 is preferred.");
                m
            },
        };
        Finding { severity, key_name: key.name.clone(), message: m }
    } else if contains_str(algo_lower.as_str(), "ecdsa") {
        let mut m = owned("ECDSA key (");
        m.append(alg);
        m.append("). Acceptable, though ed25519 is generally preferred.");
        Finding { severity: Severity::Info, key_name: key.name.clone(), message: m }
    } else if contains_str(algo_lower.as_str(), "ed25519") {
        let mut m = owned("ed25519 key (");
        m.append(alg);
        m.append(") \u{2014} excellent choice. Modern, fast, and secure.");
        Finding { severity: Severity::Good, key_name: key.name.clone(), message: m }
    } else {
        let mut m = owned("Unknown key algorithm: ");
        m.append(alg);
        m.append(". Verify this is acceptable.");
        Finding { severity: Severity::Warn, key_name: key.name.clone(), message: m }
    };
    assert(f@ == algorithm_finding(key@));
    findings.push(f);
    assert(findings_view(findings@) =~= findings_view(old(findings)@).push(algorithm_finding(key@)));
}

/// The number of whole days in `seconds`, as the age of a key file is counted.
pub fn whole_days(seconds: u64) -> (r: u64)
    ensures
        r == seconds / 86400,
{
    seconds / 86400
}

/// The finding about a key that is `days` days old, if it is more than a
/// year old.
pub fn audit_age(key_name: &String, days: u64) -> (r: Option<Finding>)
    ensures
        match r {
            Some(f) => age_finding(key_name@, days as nat) == Some(f@),
            None => age_finding(key_name@, days as nat) is None,
        },
{
    if days > 730 {
        let mut m = owned("Key is ~");
        push_decimal(&mut m, days);
        m.append(" days old (>");
        push_decimal(&mut m, days / 365);
        m.append(" years). Consider rotating for security hygiene.");
        Some(Finding { severity: Severity::Warn, key_name: key_name.clone(), message: m })
    } else if days > 365 {
        let mut m = owned("Key is ~");
        push_decimal(&mut m, days);
        m.append(" days old (>1 year). Rotation recommended annually.");
        Some(Finding { severity: Severity::Info, key_name: key_name.clone(), message: m })
    } else {
        None
    }
}

fn audit_private_key(key: &LocalKey, findings: &mut Vec<Finding>)
    ensures
        findings_view(final(findings)@) == findings_view(old(findings)@) + opt_seq(
            private_key_finding(key@),
        ),
{
    if key.private_key_path.is_none() {
        findings.push(
            Finding {
                severity: Severity::Warn,
                key_name: key.name.clone(),
                message: owned(
                    "Public key exists but no matching private key found. This key cannot be used for authentication from this host.",
                ),
            },
        );
    }
    assert(findings_view(findings@) =~= findings_view(old(findings)@) + opt_seq(
        private_key_finding(key@),
    ));
}

proof fn lemma_of_severity_push(fs: Seq<FindingView>, f: FindingView, s: Severity)
    ensures
        of_severity(fs.push(f), s) == if f.severity == s {
            of_severity(fs, s).push(f)
        } else {
            of_severity(fs, s)
        },
{
    assert(fs.push(f).drop_last() =~= fs);
}

/// The findings of `v` with severity `s`, in order.
fn select_severity(v: &Vec<Finding>, s: Severity, out: &mut Vec<Finding>)
    ensures
        findings_view(final(out)@) == findings_view(old(out)@) + of_severity(findings_view(v@), s),
{
    let ghost fv = findings_view(v@);
    let mut i: usize = 0;
    assert(fv.take(0) =~= Seq::<FindingView>::empty());
    assert(findings_view(out@) =~= findings_view(old(out)@) + of_severity(fv.take(0), s));
    while i < v.len()
        invariant
            fv == findings_view(v@),
            i <= v@.len(),
            findings_view(out@) == findings_view(old(out)@) + of_severity(fv.take(i as int), s),
        decreases v@.len() - i,
    {
        let ghost before = findings_view(out@);
        proof {
            assert(fv.take(i + 1) =~= fv.take(i as int).push(fv[i as int]));
            lemma_of_severity_push(fv.take(i as int), fv[i as int], s);
        }
        if v[i].severity == s {
            out.push(v[i].clone());
            assert(findings_view(out@) =~= before.push(fv[i as int]));
        }
        i += 1;
    }
    assert(fv.take(v@.len() as int) =~= fv);
}

/// Audits local keys; `ages_days[i]` is the age in days of the public key
/// file of `keys[i]`, or `None` when it could not be determined. Every key
/// gets a finding about its algorithm, one about its age when it is over a
/// year old, and one when its private key is missing; with no keys at all
/// there is a single informational finding. Findings come worst first, in
/// key order within one severity.
pub fn audit_keys(keys: &[LocalKey], ages_days: &[Option<u64>]) -> (r: Vec<Finding>)
    requires
        keys@.len() == ages_days@.len(),
    ensures
        findings_view(r@) == audit(keys_view(keys@), ages_days@),
        forall|i: int, j: int|
            0 <= i < j < r@.len() ==> (#[trigger] r@[i]).severity.spec_rank() >= (
            #[trigger] r@[j]).severity.spec_rank(),
{
    let ghost kv = keys_view(keys@);
    let mut findings: Vec<Finding> = Vec::new();
    let mut i: usize = 0;
    assert(kv.take(0) =~= Seq::<LocalKeyView>::empty());
    assert(findings_view(findings@) =~= raw_findings(kv.take(0), ages_days@.take(0)));
    while i < keys.len()
        invariant
            kv == keys_view(keys@),
            keys@.len() == ages_days@.len(),
            i <= keys@.len(),
            findings_view(findings@) == raw_findings(kv.take(i as int), ages_days@.take(i as int)),
        decreases keys@.len() - i,
    {
        let key = &keys[i];
        assert(kv[i as int] == key@);
        let ghost before = findings_view(findings@);
        audit_algorithm(key, &mut findings);
        let ghost after_alg = findings_view(findings@);
        match ages_days[i] {
            Some(days) => {
                match audit_age(&key.name, days) {
                    Some(f) => {
                        findings.push(f);
                    },
                    None => {},
                }
            },
            None => {},
        }
        let ghost after_age = findings_view(findings@);
        assert(after_age =~= after_alg + opt_seq(
            match ages_days@[i as int] {
                Some(d) => age_finding(key@.name, d as nat),
                None => None,
            },
        ));
        audit_private_key(key, &mut findings);
        proof {
            assert(kv.take(i + 1).drop_last() =~= kv.take(i as int));
            assert(ages_days@.take(i + 1).drop_last() =~= ages_days@.take(i as int));
            assert(findings_view(findings@) =~= before + key_findings(kv[i as int], ages_days@[i as int]));
        }
        i += 1;
    }
    assert(kv.take(keys@.len() as int) =~= kv);
    assert(ages_days@.take(keys@.len() as int) =~= ages_days@);
    if keys.len() == 0 {
        let ghost before = findings_view(findings@);
        findings.push(
            Finding {
                severity: Severity::Info,
                key_name: owned("(none)"),
                message: owned("No local SSH keys found. Generate one with 'g' in the Keys tab."),
            },
        );
        assert(findings_view(findings@) =~= before.push(no_keys_finding()));
    }
    let mut sorted: Vec<Finding> = Vec::new();
    assert(findings_view(sorted@) =~= Seq::<FindingView>::empty());
    select_severity(&findings, Severity::Critical, &mut sorted);
    select_severity(&findings, Severity::Warn, &mut sorted);
    select_severity(&findings, Severity::Info, &mut sorted);
    select_severity(&findings, Severity::Good, &mut sorted);
    assert(findings_view(sorted@) =~= audit(kv, ages_days@));
    proof {
        lemma_audit_worst_first(kv, ages_days@);
        assert forall|i: int, j: int| 0 <= i < j < sorted@.len() implies (
        #[trigger] sorted@[i]).severity.spec_rank() >= (#[trigger] sorted@[j]).severity.spec_rank() by {
            assert(findings_view(sorted@)[i] == sorted@[i]@);
            assert(findings_view(sorted@)[j] == sorted@[j]@);
        }
    }
    sorted
}

/// Every finding that `of_severity(fs, s)` keeps has severity `s`.
proof fn lemma_of_severity_only(fs: Seq<FindingView>, s: Severity)
    ensures
        forall|k: int|
            0 <= k < of_severity(fs, s).len() ==> (#[trigger] of_severity(fs, s)[k]).severity == s,
    decreases fs.len(),
{
    if fs.len() > 0 {
        lemma_of_severity_only(fs.drop_last(), s);
    }
}

/// Where a finding stands in `worst_first(fs)` tells its severity: first the
/// critical ones, then the warnings, the notes, and the good news.
proof fn lemma_worst_first_at(fs: Seq<FindingView>, k: int)
    requires
        0 <= k < worst_first(fs).len(),
    ensures
        ({
            let a = of_severity(fs, Severity::Critical).len();
            let b = of_severity(fs, Severity::Warn).len();
            let c = of_severity(fs, Severity::Info).len();
            worst_first(fs)[k].severity == if k < a {
                Severity::Critical
            } else if k < a + b {
                Severity::Warn
            } else if k < a + b + c {
                Severity::Info
            } else {
                Severity::Good
            }
        }),
{
    lemma_of_severity_only(fs, Severity::Critical);
    lemma_of_severity_only(fs, Severity::Warn);
    lemma_of_severity_only(fs, Severity::Info);
    lemma_of_severity_only(fs, Severity::Good);
    let sa = of_severity(fs, Severity::Critical);
    let sb = of_severity(fs, Severity::Warn);
    let sc = of_severity(fs, Severity::Info);
    let sd = of_severity(fs, Severity::Good);
    let w = worst_first(fs);
    assert(w == ((sa + sb) + sc) + sd);
    if k < sa.len() {
        assert(w[k] == sa[k]);
    } else if k < sa.len() + sb.len() {
        assert(w[k] == sb[k - sa.len()]);
    } else if k < sa.len() + sb.len() + sc.len() {
        assert(w[k] == sc[k - sa.len() - sb.len()]);
    } else {
        assert(w[k] == sd[k - sa.len() - sb.len() - sc.len()]);
    }
}

/// `worst_first` puts no finding after a less serious one.
proof fn lemma_worst_first_sorted(fs: Seq<FindingView>)
    ensures
        forall|i: int, j: int|
            0 <= i < j < worst_first(fs).len() ==> (#[trigger] worst_first(fs)[i]).severity.spec_rank()
                >= (#[trigger] worst_first(fs)[j]).severity.spec_rank(),
{
    assert forall|i: int, j: int| 0 <= i < j < worst_first(fs).len() implies (
    #[trigger] worst_first(fs)[i]).severity.spec_rank() >= (
    #[trigger] worst_first(fs)[j]).severity.spec_rank() by {
        lemma_worst_first_at(fs, i);
        lemma_worst_first_at(fs, j);
    }
}

/// `worst_first` reorders: it keeps every finding as many times as it occurs.
proof fn lemma_worst_first_reorders(fs: Seq<FindingView>)
    ensures
        worst_first(fs).to_multiset() == fs.to_multiset(),
    decreases fs.len(),
{
    broadcast use vstd::seq_lib::to_multiset_build, vstd::seq_lib::lemma_multiset_commutative,
        vstd::multiset::group_multiset_axioms;

    if fs.len() == 0 {
        assert(worst_first(fs) =~= Seq::<FindingView>::empty());
        assert(fs =~= Seq::<FindingView>::empty());
    } else {
        let p = fs.drop_last();
        let f = fs.last();
        assert(fs =~= p.push(f));
        lemma_worst_first_reorders(p);
        let sa = of_severity(p, Severity::Critical);
        let sb = of_severity(p, Severity::Warn);
        let sc = of_severity(p, Severity::Info);
        let sd = of_severity(p, Severity::Good);
        let m = sa.to_multiset().add(sb.to_multiset()).add(sc.to_multiset()).add(sd.to_multiset());
        assert(worst_first(p).to_multiset() == m);
        let ta = of_severity(fs, Severity::Critical);
        let tb = of_severity(fs, Severity::Warn);
        let tc = of_severity(fs, Severity::Info);
        let td = of_severity(fs, Severity::Good);
        assert(worst_first(fs).to_multiset() == ta.to_multiset().add(tb.to_multiset()).add(
            tc.to_multiset(),
        ).add(td.to_multiset()));
        assert(worst_first(fs).to_multiset() =~= m.insert(f));
        assert(fs.to_multiset() =~= p.to_multiset().insert(f));
    }
}

/// Audit findings come worst first: no finding is followed by a more
/// serious one.
pub proof fn lemma_audit_worst_first(keys: Seq<LocalKeyView>, ages: Seq<Option<u64>>)
    ensures
        forall|i: int, j: int|
            0 <= i < j < audit(keys, ages).len() ==> (#[trigger] audit(keys, ages)[i]).severity.spec_rank()
                >= (#[trigger] audit(keys, ages)[j]).severity.spec_rank(),
{
    let raw = raw_findings(keys, ages);
    lemma_worst_first_sorted(
        if keys.len() == 0 {
            raw.push(no_keys_finding())
        } else {
            raw
        },
    );
}

/// The audit only reorders: it reports every finding about every key (and,
/// with no keys, the note that there are none) exactly once, and nothing else.
pub proof fn lemma_audit_reorders(keys: Seq<LocalKeyView>, ages: Seq<Option<u64>>)
    ensures
        audit(keys, ages).to_multiset() == (if keys.len() == 0 {
            seq![no_keys_finding()]
        } else {
            raw_findings(keys, ages)
        }).to_multiset(),
{
    let raw = raw_findings(keys, ages);
    if keys.len() == 0 {
        assert(raw =~= Seq::<FindingView>::empty());
        assert(raw.push(no_keys_finding()) =~= seq![no_keys_finding()]);
    }
    lemma_worst_first_reorders(
        if keys.len() == 0 {
            raw.push(no_keys_finding())
        } else {
            raw
        },
    );
}

/// With no keys, the audit is the single note that there are none.
pub proof fn lemma_audit_no_keys(ages: Seq<Option<u64>>)
    ensures
        audit(Seq::empty(), ages) == seq![no_keys_finding()],
{
    let fs = seq![no_keys_finding()];
    assert(raw_findings(Seq::empty(), ages) =~= Seq::<FindingView>::empty());
    assert(Seq::<FindingView>::empty().push(no_keys_finding()) =~= fs);
    assert(fs.drop_last() =~= Seq::<FindingView>::empty());
    assert(fs.last().severity == Severity::Info);
    assert(of_severity(Seq::<FindingView>::empty(), Severity::Critical) =~= Seq::<FindingView>::empty());
    assert(of_severity(Seq::<FindingView>::empty(), Severity::Warn) =~= Seq::<FindingView>::empty());
    assert(of_severity(Seq::<FindingView>::empty(), Severity::Info) =~= Seq::<FindingView>::empty());
    assert(of_severity(Seq::<FindingView>::empty(), Severity::Good) =~= Seq::<FindingView>::empty());
    assert(Seq::<FindingView>::empty().push(fs.last()) =~= fs);
    assert(of_severity(fs, Severity::Critical) =~= Seq::<FindingView>::empty());
    assert(of_severity(fs, Severity::Warn) =~= Seq::<FindingView>::empty());
    assert(of_severity(fs, Severity::Info) =~= fs);
    assert(of_severity(fs, Severity::Good) =~= Seq::<FindingView>::empty());
    assert(worst_first(fs) =~= fs);
}

proof fn lemma_raw_findings_cover(keys: Seq<LocalKeyView>, ages: Seq<Option<u64>>, i: int)
    requires
        0 <= i < keys.len(),
    ensures
        raw_findings(keys, ages).contains(algorithm_finding(keys[i])),
    decreases keys.len(),
{
    let rest = raw_findings(keys.drop_last(), ages.drop_last());
    let last = key_findings(keys.last(), ages[keys.len() - 1]);
    if i == keys.len() - 1 {
        assert((rest + last)[rest.len() as int] == algorithm_finding(keys[i]));
    } else {
        lemma_raw_findings_cover(keys.drop_last(), ages.drop_last(), i);
        assert(keys.drop_last()[i] == keys[i]);
        let k = choose|k: int| 0 <= k < rest.len() && rest[k] == algorithm_finding(keys[i]);
        assert((rest + last)[k] == algorithm_finding(keys[i]));
    }
}

/// Every key is reported on: the audit holds the finding about each key's
/// algorithm.
pub proof fn lemma_audit_covers_every_key(keys: Seq<LocalKeyView>, ages: Seq<Option<u64>>)
    ensures
        forall|i: int|
            0 <= i < keys.len() ==> audit(keys, ages).contains(algorithm_finding(#[trigger] keys[i])),
{
    broadcast use vstd::seq_lib::to_multiset_contains;

    lemma_audit_reorders(keys, ages);
    assert forall|i: int| 0 <= i < keys.len() implies audit(keys, ages).contains(
        algorithm_finding(#[trigger] keys[i]),
    ) by {
        let x = algorithm_finding(keys[i]);
        lemma_raw_findings_cover(keys, ages, i);
        assert(raw_findings(keys, ages).to_multiset().count(x) > 0);
        assert(audit(keys, ages).to_multiset().count(x) > 0);
    }
}

/// The severity that a key's algorithm name earns, its ASCII lower-casing
/// searched for: DSA (but not ECDSA) is critical, RSA a warning, ECDSA a
/// note, ed25519 good news, and anything else a warning.
pub open spec fn algorithm_severity(algorithm: Seq<char>) -> Severity {
    let a = lower(algorithm);
    if (contains(a, "dsa"@) || contains(a, "dss"@)) && !contains(a, "ecdsa"@) {
        Severity::Critical
    } else if contains(a, "rsa"@) {
        Severity::Warn
    } else if contains(a, "ecdsa"@) {
        Severity::Info
    } else if contains(a, "ed25519"@) {
        Severity::Good
    } else {
        Severity::Warn
    }
}

/// Each key's algorithm finding is about that key and has the severity its
/// algorithm name earns.
pub proof fn lemma_algorithm_finding_rule(key: LocalKeyView)
    ensures
        algorithm_finding(key).key_name == key.name,
        algorithm_finding(key).severity == algorithm_severity(key.algorithm),
{
}

} // verus!
