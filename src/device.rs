//! The memory budget, from the report of the device query tool, and the
//! architectures a model descriptor may name.
use crate::template::same_text;
use vstd::prelude::*;

verus! {

/// Memory left to the system and other processes, in MB.
pub const SAFETY_MARGIN_MB: u64 = 1024;

/// The budget where the device cannot be queried: 8000 MB less the margin.
pub const DEFAULT_CAPACITY_MB: u64 = 6976;

/// Space, tab, carriage return, vertical tab or form feed.
pub open spec fn is_blank(b: u8) -> bool {
    b == 32 || b == 9 || b == 13 || b == 11 || b == 12
}

/// An ASCII decimal digit.
pub open spec fn is_digit(b: u8) -> bool {
    48 <= b <= 57
}

/// The end of the line that starts at `k`: the next newline or the end.
pub open spec fn line_end(s: Seq<u8>, k: int) -> int
    decreases s.len() - k,
{
    if k >= s.len() || k < 0 || s[k] == 10 {
        k
    } else {
        line_end(s, k + 1)
    }
}

/// The first position from `k` on, before `e`, that is not blank.
pub open spec fn skip_blank(s: Seq<u8>, k: int, e: int) -> int
    decreases e - k,
{
    if k >= e || !is_blank(s[k]) {
        k
    } else {
        skip_blank(s, k + 1, e)
    }
}

/// The end of `s[b..e]` once trailing blanks are cut.
pub open spec fn trim_end(s: Seq<u8>, b: int, e: int) -> int
    decreases e - b,
{
    if e <= b || !is_blank(s[e - 1]) {
        e
    } else {
        trim_end(s, b, e - 1)
    }
}

/// The first line of `s` without surrounding blanks.
pub open spec fn first_field(s: Seq<u8>) -> Seq<u8> {
    let e = line_end(s, 0);
    let b = skip_blank(s, 0, e);
    s.subrange(b, trim_end(s, b, e))
}

/// The value of a string of decimal digits.
pub open spec fn decimal(s: Seq<u8>) -> nat
    decreases s.len(),
{
    if s.len() == 0 {
        0
    } else {
        decimal(s.drop_last()) * 10 + (s.last() - 48) as nat
    }
}

/// The total memory the report gives, where its first line is a number that
/// fits in 64 bits.
pub open spec fn reported_total(s: Seq<u8>) -> Option<nat> {
    let f = first_field(s);
    if f.len() > 0 && (forall|i: int| 0 <= i < f.len() ==> is_digit(#[trigger] f[i])) && decimal(f)
        <= u64::MAX {
        Some(decimal(f))
    } else {
        None
    }
}

/// The budget: the reported total less the margin, or the default where the
/// query failed or its report does not read as a number.
pub open spec fn capacity_of(report: Option<Seq<u8>>) -> nat {
    match report {
        Some(s) => match reported_total(s) {
            Some(t) => if t >= SAFETY_MARGIN_MB {
                (t - SAFETY_MARGIN_MB) as nat
            } else {
                0
            },
            None => DEFAULT_CAPACITY_MB as nat,
        },
        None => DEFAULT_CAPACITY_MB as nat,
    }
}

proof fn lemma_decimal_grows(f: Seq<u8>, j: int)
    requires
        0 <= j <= f.len(),
        forall|i: int| 0 <= i < f.len() ==> is_digit(#[trigger] f[i]),
    ensures
        decimal(f.subrange(0, j)) <= decimal(f),
    decreases f.len() - j,
{
    if j < f.len() {
        lemma_decimal_grows(f, j + 1);
        assert(f.subrange(0, j + 1).drop_last() =~= f.subrange(0, j));
    } else {
        assert(f.subrange(0, j) =~= f);
    }
}

/// Reads the total memory from the query tool's output: the first line,
/// without blanks around it, as a decimal number of MB.
fn parse_total(s: &[u8]) -> (r: Option<u64>)
    ensures
        r == match reported_total(s@) {
            Some(t) => Some(t as u64),
            None => None::<u64>,
        },
{
    let n = s.len();
    let mut e: usize = 0;
    while e < n && s[e] != 10
        invariant
            e <= n,
            n == s@.len(),
            line_end(s@, 0) == line_end(s@, e as int),
        decreases n - e,
    {
        e = e + 1;
    }
    let mut b: usize = 0;
    while b < e && (s[b] == 32 || s[b] == 9 || s[b] == 13 || s[b] == 11 || s[b] == 12)
        invariant
            b <= e,
            e <= n,
            n == s@.len(),
            skip_blank(s@, 0, e as int) == skip_blank(s@, b as int, e as int),
        decreases e - b,
    {
        b = b + 1;
    }
    let mut t: usize = e;
    while t > b && (s[t - 1] == 32 || s[t - 1] == 9 || s[t - 1] == 13 || s[t - 1] == 11 || s[t
        - 1] == 12)
        invariant
            b <= t <= e,
            e <= n,
            n == s@.len(),
            trim_end(s@, b as int, e as int) == trim_end(s@, b as int, t as int),
        decreases t - b,
    {
        t = t - 1;
    }
    let ghost f = s@.subrange(b as int, t as int);
    assert(f == first_field(s@));
    if t == b {
        return None;
    }
    let mut v: u64 = 0;
    let mut k: usize = b;
    while k < t
        invariant
            b <= k <= t,
            t <= n,
            n == s@.len(),
            f == s@.subrange(b as int, t as int),
            f == first_field(s@),
            f.len() > 0,
            forall|i: int| 0 <= i < k - b ==> is_digit(#[trigger] f[i]),
            v == decimal(f.subrange(0, k - b)),
        decreases t - k,
    {
        let c = s[k];
        if c < 48 || c > 57 {
            proof {
                assert(f[k - b] == c);
                assert(!is_digit(f[k - b]));
                assert(!(forall|i: int| 0 <= i < f.len() ==> is_digit(#[trigger] f[i])));
                assert(reported_total(s@) is None);
            }
            return None;
        }
        let d = (c - 48) as u64;
        proof {
            assert(f.subrange(0, k - b + 1).drop_last() =~= f.subrange(0, k - b));
            assert(f.subrange(0, k - b + 1).last() == c);
            assert(f[k - b] == c);
        }
        if v > (u64::MAX - d) / 10 {
            proof {
                assert(v * 10 + d > u64::MAX) by (nonlinear_arith)
                    requires
                        v > (u64::MAX - d) / 10,
                        d <= 9,
                ;
                if forall|i: int| 0 <= i < f.len() ==> is_digit(#[trigger] f[i]) {
                    lemma_decimal_grows(f, k - b + 1);
                    assert(decimal(f) > u64::MAX);
                }
                assert(reported_total(s@) is None);
            }
            return None;
        }
        proof {
            assert(v * 10 + d <= u64::MAX) by (nonlinear_arith)
                requires
                    v <= (u64::MAX - d) / 10,
                    d <= 9,
            ;
        }
        v = v * 10 + d;
        k = k + 1;
    }
    proof {
        assert(f.subrange(0, k - b) =~= f);
    }
    Some(v)
}

/// The memory budget from the device query: `None` where the tool is missing
/// or failed, else its standard output.
pub fn capacity_from_report(report: Option<&[u8]>) -> (r: u64)
    ensures
        r == capacity_of(
            match report {
                Some(s) => Some(s@),
                None => None::<Seq<u8>>,
            },
        ),
{
    match report {
        None => DEFAULT_CAPACITY_MB,
        Some(out) => match parse_total(out) {
            Some(total) => if total >= SAFETY_MARGIN_MB {
                total - SAFETY_MARGIN_MB
            } else {
                0
            },
            None => DEFAULT_CAPACITY_MB,
        },
    }
}

/// The model architectures with a weight format and a prompt template.
#[derive(Debug, Clone, Copy, PartialEq, Eq, Structural)]
pub enum Architecture {
    Phi,
    Mistral,
    Llama3,
}

/// The architecture a descriptor's tag names.
pub open spec fn architecture_of(tag: Seq<char>) -> Option<Architecture> {
    if tag == "phi"@ {
        Some(Architecture::Phi)
    } else if tag == "mistral"@ {
        Some(Architecture::Mistral)
    } else if tag == "llama3"@ {
        Some(Architecture::Llama3)
    } else {
        None
    }
}

impl Architecture {
    /// Reads an architecture tag; `None` for an unsupported one.
    pub fn parse(tag: &str) -> (r: Option<Architecture>)
        ensures
            r == architecture_of(tag@),
    {
        if same_text(tag, "phi") {
            Some(Architecture::Phi)
        } else if same_text(tag, "mistral") {
            Some(Architecture::Mistral)
        } else if same_text(tag, "llama3") {
            Some(Architecture::Llama3)
        } else {
            None
        }
    }
}

/// A model as the configuration describes it.
#[derive(Debug, Clone, PartialEq, Eq)]
pub struct ModelConfig {
    /// The architecture tag: `phi`, `mistral` or `llama3`.
    pub arch: String,
    /// The hub repository of the weights.
    pub repo: String,
    /// The weight file in that repository.
    pub file: String,
    /// The hub repository of the tokenizer.
    pub tokenizer_repo: String,
    /// The tokenizer file in that repository.
    pub tokenizer_file: String,
}

} // verus!
