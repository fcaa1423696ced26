//! Version checking for the self-update workflow: the comparison that
//! decides whether a published release is newer than the running build.
//! Fetching releases and installing them is I/O and lives outside.
use vstd::prelude::*;

use vstd::string::StringSliceAdditionalSpecFns;

verus! {

/// The byte of an ASCII dot, digit zero, digit nine and plus sign.
pub const DOT: u8 = 46;

pub const DIGIT_ZERO: u8 = 48;

pub const DIGIT_NINE: u8 = 57;

pub const PLUS: u8 = 43;

/// The index of the first dot, or the whole length when there is none.
pub open spec fn first_dot(b: Seq<u8>) -> int
    decreases b.len(),
{
    if b.len() == 0 {
        0
    } else if b[0] == DOT {
        0
    } else {
        1 + first_dot(b.drop_first())
    }
}

/// The value of a string of decimal digits.
pub open spec fn dec_val(d: Seq<u8>) -> nat
    decreases d.len(),
{
    if d.len() == 0 {
        0
    } else {
        dec_val(d.drop_last()) * 10 + (if d.last() >= DIGIT_ZERO {
            (d.last() - DIGIT_ZERO) as nat
        } else {
            0
        })
    }
}

/// Whether every byte is a decimal digit.
pub open spec fn all_digits(d: Seq<u8>) -> bool {
    forall|i: int| 0 <= i < d.len() ==> DIGIT_ZERO <= #[trigger] d[i] <= DIGIT_NINE
}

/// How one dot-separated part parses as an unsigned number: an optional
/// plus sign, then at least one digit, and a value that fits; anything
/// else — an empty part, a stray letter, an overflow — parses as nothing
/// and the part is skipped.
pub open spec fn parse_part(p: Seq<u8>) -> Option<u32> {
    let d = if p.len() > 0 && p[0] == PLUS {
        p.drop_first()
    } else {
        p
    };
    if d.len() > 0 && all_digits(d) && dec_val(d) <= u32::MAX {
        Some(dec_val(d) as u32)
    } else {
        None
    }
}

/// The numeric components of a version string: its dot-separated parts, in
/// order, keeping only those that parse.
pub open spec fn components(b: Seq<u8>) -> Seq<u32>
    decreases b.len(),
{
    let k0 = first_dot(b);
    let k = if 0 <= k0 <= b.len() {
        k0
    } else {
        0
    };
    let head = match parse_part(b.take(k)) {
        Some(v) => seq![v],
        None => Seq::empty(),
    };
    if k >= b.len() {
        head
    } else {
        head + components(b.skip(k + 1))
    }
}

/// A missing component counts as zero.
pub open spec fn component_at(cs: Seq<u32>, i: int) -> u32 {
    if 0 <= i < cs.len() {
        cs[i]
    } else {
        0
    }
}

/// Whether `latest` is newer, deciding on the first of the three leading
/// components that differs.
pub open spec fn newer_from(c: Seq<u32>, l: Seq<u32>, i: int) -> bool
    decreases 3 - i,
{
    if i >= 3 {
        false
    } else if component_at(l, i) > component_at(c, i) {
        true
    } else if component_at(l, i) < component_at(c, i) {
        false
    } else {
        newer_from(c, l, i + 1)
    }
}

pub open spec fn spec_is_newer(current: Seq<u8>, latest: Seq<u8>) -> bool {
    newer_from(components(current), components(latest), 0)
}

/// The first dot is characterized by what lies before it.
proof fn lemma_first_dot_at(b: Seq<u8>, k: int)
    requires
        0 <= k <= b.len(),
        forall|m: int| 0 <= m < k ==> b[m] != DOT,
        k < b.len() ==> b[k] == DOT,
    ensures
        first_dot(b) == k,
    decreases b.len(),
{
    if b.len() > 0 && b[0] != DOT {
        assert forall|m: int| 0 <= m < k - 1 implies b.drop_first()[m] != DOT by {
            assert(b.drop_first()[m] == b[m + 1]);
        }
        if k - 1 < b.drop_first().len() {
            assert(b.drop_first()[k - 1] == b[k]);
        }
        lemma_first_dot_at(b.drop_first(), k - 1);
    }
}

/// A digit appended multiplies the value by ten and adds the digit.
proof fn lemma_dec_val_push(d: Seq<u8>, x: u8)
    requires
        DIGIT_ZERO <= x <= DIGIT_NINE,
    ensures
        dec_val(d.push(x)) == dec_val(d) * 10 + (x - DIGIT_ZERO) as nat,
{
    assert(d.push(x).drop_last() =~= d);
    assert(d.push(x).last() == x);
}

/// One dot-separated part, parsed exactly as the components spec parses
/// it.
fn parse_part_exec(b: &[u8], start: usize, end: usize) -> (r: Option<u32>)
    requires
        start <= end <= b@.len(),
    ensures
        r == parse_part(b@.subrange(start as int, end as int)),
{
    let ghost p = b@.subrange(start as int, end as int);
    let mut i = start;
    if i < end && b[i] == PLUS {
        i = i + 1;
    }
    let ghost d = if p.len() > 0 && p[0] == PLUS {
        p.drop_first()
    } else {
        p
    };
    proof {
        assert(d =~= b@.subrange(i as int, end as int));
    }
    if i == end {
        return None;
    }
    let mut value: u64 = 0;
    let mut overflow = false;
    let mut j = i;
    while j < end
        invariant
            start <= i <= j <= end <= b@.len(),
            p == b@.subrange(start as int, end as int),
            d == (if p.len() > 0 && p[0] == PLUS {
                p.drop_first()
            } else {
                p
            }),
            d == b@.subrange(i as int, end as int),
            all_digits(d.take(j - i)),
            !overflow ==> value == dec_val(d.take(j - i)) && value <= u32::MAX,
            overflow ==> dec_val(d.take(j - i)) > u32::MAX,
        decreases end - j,
    {
        let x = b[j];
        if x < DIGIT_ZERO || x > DIGIT_NINE {
            proof {
                assert(d[j - i] == b@[j as int]);
                assert(!all_digits(d));
            }
            return None;
        }
        proof {
            assert(d[j - i] == b@[j as int]);
            assert(d.take(j - i + 1) =~= d.take(j - i).push(d[j - i]));
            lemma_dec_val_push(d.take(j - i), d[j - i]);
        }
        if !overflow {
            let next = value * 10 + ((x - DIGIT_ZERO) as u64);
            if next > u32::MAX as u64 {
                overflow = true;
            } else {
                value = next;
            }
            proof {
                if overflow {
                    assert(dec_val(d.take(j - i + 1)) > u32::MAX);
                }
            }
        } else {
            proof {
                assert(dec_val(d.take(j - i)) * 10 + (d[j - i] - DIGIT_ZERO) as nat
                    > u32::MAX);
            }
        }
        j = j + 1;
    }
    proof {
        assert(d.take(end - i) =~= d);
    }
    if overflow {
        None
    } else {
        Some(value as u32)
    }
}

/// The numeric components of a version string, from one position on.
fn components_from(b: &[u8], start: usize) -> (r: Vec<u32>)
    requires
        start <= b@.len(),
    ensures
        r@ == components(b@.skip(start as int)),
    decreases b@.len() - start@,
{
    let ghost tail = b@.skip(start as int);
    let mut k = start;
    while k < b.len() && b[k] != DOT
        invariant
            start <= k <= b@.len(),
            forall|m: int| start <= m < k ==> b@[m] != DOT,
        decreases b@.len() - k,
    {
        k = k + 1;
    }
    proof {
        assert forall|m: int| 0 <= m < k - start implies tail[m] != DOT by {
            assert(tail[m] == b@[start + m]);
        }
        if k < b@.len() {
            assert(tail[k - start] == b@[k as int]);
        }
        lemma_first_dot_at(tail, k - start as int);
        assert(tail.take(k - start as int) =~= b@.subrange(start as int, k as int));
    }
    let head = parse_part_exec(b, start, k);
    let mut out: Vec<u32> = Vec::new();
    match head {
        Option::Some(v) => {
            out.push(v);
        },
        Option::None => {},
    }
    if k == b.len() {
        proof {
            assert(out@ =~= components(tail));
        }
        out
    } else {
        let mut rest = components_from(b, k + 1);
        proof {
            assert(tail.skip(k - start + 1) =~= b@.skip(k + 1));
        }
        out.append(&mut rest);
        proof {
            assert(out@ =~= components(tail));
        }
        out
    }
}

/// What the update workflow can report.
#[derive(Clone, Debug, PartialEq)]
pub enum UpdateStatus {
    Idle,
    Checking,
    UpdateAvailable(String),
    NoUpdateAvailable,
    Downloading,
    Installing,
    Error(String),
    Success,
}

/// Owns the running build's version and the last reported status of the
/// update workflow.
pub struct UpdateManager {
    pub status: UpdateStatus,
    pub current_version: String,
}

impl UpdateManager {
    pub fn new(current_version: String) -> (r: UpdateManager)
        ensures
            r.status is Idle,
            r.current_version == current_version,
    {
        UpdateManager { status: UpdateStatus::Idle, current_version }
    }

    /// Whether `latest` names a newer release than `current`: the first of
    /// the three leading numeric components that differs decides, a
    /// missing or unparsable component counting as zero.
    pub fn is_newer_version(current: &str, latest: &str) -> (r: bool)
        ensures
            r == spec_is_newer(current.spec_bytes(), latest.spec_bytes()),
    {
        let cb = current.as_bytes();
        let lb = latest.as_bytes();
        let c = components_from(cb, 0);
        let l = components_from(lb, 0);
        proof {
            assert(cb@.skip(0) =~= current.spec_bytes());
            assert(lb@.skip(0) =~= latest.spec_bytes());
        }
        let mut i: usize = 0;
        while i < 3
            invariant
                i <= 3,
                c@ == components(current.spec_bytes()),
                l@ == components(latest.spec_bytes()),
                spec_is_newer(current.spec_bytes(), latest.spec_bytes()) == newer_from(
                    c@,
                    l@,
                    i as int,
                ),
            decreases 3 - i,
        {
            let cv = if i < c.len() {
                c[i]
            } else {
                0
            };
            let lv = if i < l.len() {
                l[i]
            } else {
                0
            };
            if lv > cv {
                return true;
            }
            if lv < cv {
                return false;
            }
            i += 1;
        }
        false
    }

    /// The status a finished version check resolves to.
    pub fn resolve_check(&self, latest: String) -> (r: UpdateStatus)
        ensures
            spec_is_newer(
                vstd::utf8::encode_utf8(self.current_version@),
                vstd::utf8::encode_utf8(latest@),
            ) ==> r == UpdateStatus::UpdateAvailable(latest),
            !spec_is_newer(
                vstd::utf8::encode_utf8(self.current_version@),
                vstd::utf8::encode_utf8(latest@),
            ) ==> r is NoUpdateAvailable,
    {
        if Self::is_newer_version(self.current_version.as_str(), latest.as_str()) {
            UpdateStatus::UpdateAvailable(latest)
        } else {
            UpdateStatus::NoUpdateAvailable
        }
    }
}

} // verus!
