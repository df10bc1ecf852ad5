//! Parsing of a feed definition given on the command line, in the form
//! `canteenId;name;priority;url;hour[;minute[;dayOfWeek[;dayOfMonth[;month[;retry]]]]]`,
//! and its conversion to a `Feed` entry with a schedule.
use crate::model::Feed;
use crate::model::Schedule;
use vstd::prelude::*;
use vstd::string::StrSliceExecFns;
use vstd::string::StringExecFns;

verus! {

/// The index of the first occurrence of `sep`, or -1 when there is none.
pub open spec fn first_index_of(s: Seq<char>, sep: char) -> int
    decreases s.len(),
{
    if s.len() == 0 {
        -1
    } else if s[0] == sep {
        0
    } else {
        let r = first_index_of(s.drop_first(), sep);
        if r < 0 {
            -1
        } else {
            r + 1
        }
    }
}

/// Splitting at every occurrence of `sep`: always one more part than there
/// are separators; consecutive separators yield empty parts.
pub open spec fn spec_split(s: Seq<char>, sep: char) -> Seq<Seq<char>>
    decreases s.len(),
{
    let f = first_index_of(s, sep);
    if 0 <= f < s.len() {
        seq![s.subrange(0, f)] + spec_split(s.subrange(f + 1, s.len() as int), sep)
    } else {
        seq![s]
    }
}

proof fn lemma_first_index_at(s: Seq<char>, sep: char, i: int)
    requires
        0 <= i <= s.len(),
        forall|j: int| 0 <= j < i ==> s[j] != sep,
        i < s.len() ==> s[i] == sep,
    ensures
        first_index_of(s, sep) == if i == s.len() {
            -1int
        } else {
            i
        },
    decreases i,
{
    if s.len() == 0 {
    } else if i == 0 {
    } else {
        lemma_first_index_at(s.drop_first(), sep, i - 1);
    }
}

/// Splits a string at every occurrence of `sep`.
pub fn split_char(s: &str, sep: char) -> (r: Vec<String>)
    ensures
        r.deep_view() == spec_split(s@, sep),
{
    let n = s.unicode_len();
    let mut r: Vec<String> = Vec::new();
    let mut cur = String::new();
    let ghost mut start: int = 0;
    let mut i: usize = 0;
    proof {
        assert(s@.subrange(0, s@.len() as int) =~= s@);
        assert(r.deep_view() =~= Seq::<Seq<char>>::empty());
        assert(r.deep_view() + spec_split(s@, sep) =~= spec_split(s@, sep));
        assert(cur@ =~= s@.subrange(0, 0));
    }
    while i < n
        invariant
            0 <= start <= i <= n,
            n == s@.len(),
            cur@ == s@.subrange(start, i as int),
            forall|j: int| start <= j < i ==> s@[j] != sep,
            spec_split(s@, sep) == r.deep_view() + spec_split(
                s@.subrange(start, s@.len() as int),
                sep,
            ),
        decreases n - i,
    {
        let c = s.get_char(i);
        if c == sep {
            let ghost tail = s@.subrange(start, s@.len() as int);
            proof {
                lemma_first_index_at(tail, sep, i - start);
                assert(tail.subrange(0, i - start) =~= s@.subrange(start, i as int));
                assert(tail.subrange(i - start + 1, tail.len() as int) =~= s@.subrange(
                    i + 1,
                    s@.len() as int,
                ));
            }
            let ghost prev_dv = r.deep_view();
            let ghost curv = cur@;
            r.push(cur);
            cur = String::new();
            proof {
                assert(r.deep_view() =~= prev_dv.push(curv));
                assert(spec_split(tail, sep) == seq![curv] + spec_split(
                    s@.subrange(i + 1, s@.len() as int),
                    sep,
                ));
                assert(prev_dv.push(curv) =~= prev_dv + seq![curv]);
                assert(prev_dv + seq![curv] + spec_split(s@.subrange(i + 1, s@.len() as int), sep)
                    =~= prev_dv + (seq![curv] + spec_split(s@.subrange(i + 1, s@.len() as int), sep)));
                start = i + 1;
                assert(cur@ =~= s@.subrange(start, i + 1));
            }
        } else {
            cur.push(c);
            proof {
                assert(cur@ =~= s@.subrange(start, i + 1));
            }
        }
        i += 1;
    }
    let ghost tail = s@.subrange(start, s@.len() as int);
    proof {
        lemma_first_index_at(tail, sep, n - start);
        assert(tail =~= cur@);
        assert(spec_split(tail, sep) == seq![cur@]);
    }
    let ghost prev_dv = r.deep_view();
    let ghost curv = cur@;
    r.push(cur);
    proof {
        assert(r.deep_view() =~= prev_dv.push(curv));
        assert(prev_dv.push(curv) =~= prev_dv + seq![curv]);
    }
    r
}

pub open spec fn is_digit(c: char) -> bool {
    48 <= c as u32 <= 57
}

pub open spec fn digit_val(c: char) -> int {
    c as u32 - 48
}

pub open spec fn all_digits(s: Seq<char>) -> bool {
    forall|j: int| 0 <= j < s.len() ==> is_digit(#[trigger] s[j])
}

/// The value of a digit string, most significant digit first.
pub open spec fn digits_val(s: Seq<char>) -> int
    decreases s.len(),
{
    if s.len() == 0 {
        0
    } else {
        digits_val(s.drop_last()) * 10 + digit_val(s.last())
    }
}

/// What `str::parse::<i32>` accepts: an optional sign, then at least one
/// digit, the value within the range of the type.
pub open spec fn spec_parse_i32(s: Seq<char>) -> Option<int> {
    let signed = s.len() > 0 && (s[0] == '+' || s[0] == '-');
    let digits = if signed {
        s.drop_first()
    } else {
        s
    };
    let negative = s.len() > 0 && s[0] == '-';
    if digits.len() == 0 || !all_digits(digits) {
        Option::None
    } else {
        let v = if negative {
            -digits_val(digits)
        } else {
            digits_val(digits)
        };
        if i32::MIN <= v <= i32::MAX {
            Option::Some(v)
        } else {
            Option::None
        }
    }
}

proof fn lemma_digits_val_bounds(s: Seq<char>)
    requires
        all_digits(s),
    ensures
        digits_val(s) >= 0,
        s.len() > 0 ==> digits_val(s) >= digit_val(s[0]),
    decreases s.len(),
{
    if s.len() > 0 {
        assert(is_digit(s.last()));
        lemma_digits_val_bounds(s.drop_last());
        if s.len() > 1 {
            assert(s.drop_last()[0] == s[0]);
        }
    }
}

proof fn lemma_digits_val_prefix(s: Seq<char>, i: int)
    requires
        all_digits(s),
        0 <= i <= s.len(),
    ensures
        digits_val(s) >= digits_val(s.subrange(0, i)),
    decreases s.len() - i,
{
    if i < s.len() {
        lemma_digits_val_prefix(s, i + 1);
        let p = s.subrange(0, i);
        let q = s.subrange(0, i + 1);
        assert(q.drop_last() =~= p);
        assert(is_digit(q.last()));
        assert(forall|j: int| 0 <= j < p.len() ==> is_digit(#[trigger] p[j]));
        lemma_digits_val_bounds(p);
        assert(digits_val(q) == digits_val(p) * 10 + digit_val(q.last()));
        assert(digits_val(p) * 10 >= digits_val(p)) by (nonlinear_arith)
            requires digits_val(p) >= 0;
    } else {
        assert(s.subrange(0, i) =~= s);
    }
}

/// Parses a decimal integer exactly as `str::parse::<i32>` does: an optional
/// `+` or `-`, then at least one digit; `None` on anything else or when the
/// value does not fit.
pub fn parse_i32(s: &str) -> (r: Option<i32>)
    ensures
        r matches Some(v) ==> spec_parse_i32(s@) == Some(v as int),
        r is None ==> spec_parse_i32(s@) is None,
{
    let n = s.unicode_len();
    if n == 0 {
        return None;
    }
    let c0 = s.get_char(0);
    let negative = c0 == '-';
    let signed = negative || c0 == '+';
    let start: usize = if signed {
        1
    } else {
        0
    };
    let ghost digits = if signed {
        s@.drop_first()
    } else {
        s@
    };
    proof {
        if signed {
            assert(digits =~= s@.subrange(1, s@.len() as int));
        }
        assert(digits =~= s@.subrange(start as int, s@.len() as int));
    }
    if start == n {
        return None;
    }
    let mut acc: u64 = 0;
    let mut i = start;
    while i < n
        invariant
            start <= i <= n,
            n == s@.len(),
            start == if signed { 1int } else { 0int },
            digits == s@.subrange(start as int, s@.len() as int),
            acc <= 0xFFFF_FFFFu64,
            acc == digits_val(s@.subrange(start as int, i as int)),
            forall|j: int| start <= j < i ==> is_digit(#[trigger] s@[j]),
        decreases n - i,
    {
        let c = s.get_char(i);
        let cv = c as u32;
        if cv < 48 || cv > 57 {
            proof {
                assert(digits[i - start] == s@[i as int]);
                assert(!is_digit(digits[i - start]));
            }
            return None;
        }
        let d: u64 = (cv - 48) as u64;
        acc = acc * 10 + d;
        proof {
            let p = s@.subrange(start as int, i + 1);
            assert(p.drop_last() =~= s@.subrange(start as int, i as int));
            assert(p.last() == s@[i as int]);
        }
        if acc > 0xFFFF_FFFFu64 {
            proof {
                let p = s@.subrange(start as int, i + 1);
                assert(p =~= digits.subrange(0, i + 1 - start));
                if all_digits(digits) {
                    lemma_digits_val_prefix(digits, i + 1 - start);
                    assert(digits_val(digits) >= acc);
                }
            }
            return None;
        }
        i += 1;
    }
    proof {
        assert(s@.subrange(start as int, n as int) =~= digits);
        assert(all_digits(digits));
    }
    if negative {
        if acc > 0x8000_0000u64 {
            return None;
        }
        let v: i32 = (-(acc as i64)) as i32;
        Some(v)
    } else {
        if acc > 0x7FFF_FFFFu64 {
            return None;
        }
        Some(acc as i32)
    }
}

/// A feed definition as given on the command line, before it is turned into
/// a `Feed` entry of a particular canteen.
pub struct FeedInput {
    pub canteen_id: String,
    pub name: String,
    pub priority: Option<i32>,
    pub url: String,
    pub hour: String,
    pub minute: Option<String>,
    pub day_of_week: Option<String>,
    pub day_of_month: Option<String>,
    pub month: Option<String>,
    pub retry: Option<String>,
}

/// Why a feed definition was rejected.
#[derive(Clone, Copy, PartialEq, Eq, Structural, Debug)]
pub enum FeedInputError {
    /// Fewer than five `;`-separated parts.
    Format,
    /// The priority part is present but is not a valid integer.
    Priority,
}

/// The optional trailing part at index `k`: present only when it exists and
/// is not empty.
pub open spec fn opt_part(parts: Seq<Seq<char>>, k: int) -> Option<Seq<char>> {
    if parts.len() > k && parts[k].len() > 0 {
        Option::Some(parts[k])
    } else {
        Option::None
    }
}

fn get_opt_part(parts: &Vec<String>, k: usize) -> (r: Option<String>)
    ensures
        r.deep_view() == opt_part(parts.deep_view(), k as int),
{
    if parts.len() > k && !parts[k].as_str().is_empty() {
        proof {
            assert(parts.deep_view()[k as int] == parts@[k as int]@);
        }
        Some(parts[k].clone())
    } else {
        proof {
            if parts.len() > k {
                assert(parts.deep_view()[k as int] == parts@[k as int]@);
            }
        }
        None
    }
}

impl FeedInput {
    /// Parses `canteenId;name;priority;url;hour[;minute[;dayOfWeek[;dayOfMonth[;month[;retry]]]]]`.
    /// Fails when fewer than five parts are given, or when the priority part
    /// is neither empty nor a valid integer.
    pub fn from_str(s: &str) -> (r: Result<FeedInput, FeedInputError>)
        ensures
            ({
                let parts = spec_split(s@, ';');
                &&& (r matches Err(FeedInputError::Format) <==> parts.len() < 5)
                &&& (r matches Err(FeedInputError::Priority) <==> parts.len() >= 5 && parts[2].len()
                    > 0 && spec_parse_i32(parts[2]) is None)
                &&& (r matches Ok(fi) ==> {
                    &&& fi.canteen_id@ == parts[0]
                    &&& fi.name@ == parts[1]
                    &&& (parts[2].len() == 0 ==> fi.priority is None)
                    &&& (parts[2].len() > 0 ==> (fi.priority matches Some(p) && spec_parse_i32(
                        parts[2],
                    ) == Some(p as int)))
                    &&& fi.url@ == parts[3]
                    &&& fi.hour@ == parts[4]
                    &&& fi.minute.deep_view() == opt_part(parts, 5)
                    &&& fi.day_of_week.deep_view() == opt_part(parts, 6)
                    &&& fi.day_of_month.deep_view() == opt_part(parts, 7)
                    &&& fi.month.deep_view() == opt_part(parts, 8)
                    &&& fi.retry.deep_view() == opt_part(parts, 9)
                })
            }),
    {
        let parts = split_char(s, ';');
        proof {
            assert(parts@.len() == parts.deep_view().len());
        }
        if parts.len() < 5 {
            return Err(FeedInputError::Format);
        }
        let ghost pv = parts.deep_view();
        proof {
            assert(pv[2] == parts@[2]@);
        }
        let priority: Option<i32> = if parts[2].as_str().is_empty() {
            None
        } else {
            match parse_i32(parts[2].as_str()) {
                Some(p) => Some(p),
                None => {
                    return Err(FeedInputError::Priority);
                },
            }
        };
        proof {
            assert(pv[0] == parts@[0]@);
            assert(pv[1] == parts@[1]@);
            assert(pv[3] == parts@[3]@);
            assert(pv[4] == parts@[4]@);
        }
        Ok(
            FeedInput {
                canteen_id: parts[0].clone(),
                name: parts[1].clone(),
                priority,
                url: parts[3].clone(),
                hour: parts[4].clone(),
                minute: get_opt_part(&parts, 5),
                day_of_week: get_opt_part(&parts, 6),
                day_of_month: get_opt_part(&parts, 7),
                month: get_opt_part(&parts, 8),
                retry: get_opt_part(&parts, 9),
            },
        )
    }
}

impl From<FeedInput> for Feed {
    /// The feed entry of a parsed definition: no source, and a schedule made
    /// of the cron-like fields.
    fn from(fi: FeedInput) -> (r: Feed) {
        Feed {
            name: fi.name,
            priority: fi.priority,
            url: fi.url,
            source: None,
            schedule: Some(
                Schedule {
                    hour: fi.hour,
                    minute: fi.minute,
                    day_of_week: fi.day_of_week,
                    day_of_month: fi.day_of_month,
                    month: fi.month,
                    retry: fi.retry,
                },
            ),
        }
    }
}

impl vstd::std_specs::convert::FromSpecImpl<FeedInput> for Feed {
    open spec fn obeys_from_spec() -> bool {
        true
    }

    open spec fn from_spec(fi: FeedInput) -> Feed {
        Feed {
            name: fi.name,
            priority: fi.priority,
            url: fi.url,
            source: None,
            schedule: Some(
                Schedule {
                    hour: fi.hour,
                    minute: fi.minute,
                    day_of_week: fi.day_of_week,
                    day_of_month: fi.day_of_month,
                    month: fi.month,
                    retry: fi.retry,
                },
            ),
        }
    }
}

} // verus!
