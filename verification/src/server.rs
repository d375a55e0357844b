//! What the HTTP front end hands the engine: path routing and the query
//! records carrying animation parameters.  Parsing is total: malformed
//! pieces are dropped or answered with `None`, never with a panic.

use vstd::prelude::*;

verus! {

/// The index of the first occurrence of `ch` in `s`, or the length when
/// `ch` does not occur.
pub open spec fn first_occurrence(s: Seq<char>, ch: char) -> int
    decreases s.len(),
{
    if s.len() == 0 {
        0
    } else if s[0] == ch {
        0
    } else {
        1 + first_occurrence(s.subrange(1, s.len() as int), ch)
    }
}

/// The number of leading occurrences of `ch` in `s`.
pub open spec fn leading_count(s: Seq<char>, ch: char) -> int
    decreases s.len(),
{
    if s.len() == 0 {
        0
    } else if s[0] != ch {
        0
    } else {
        1 + leading_count(s.subrange(1, s.len() as int), ch)
    }
}

///`first_occurrence` is the unique `k` with no `ch` before it and `ch` (or
/// the end) at it.
pub proof fn lemma_first_occurrence(s: Seq<char>, ch: char, k: int)
    requires
        0 <= k <= s.len(),
        forall|j: int| 0 <= j < k ==> s[j] != ch,
        k == s.len() || s[k] == ch,
    ensures
        first_occurrence(s, ch) == k,
    decreases s.len(),
{
    if s.len() > 0 && k > 0 {
        let t = s.subrange(1, s.len() as int);
        assert(s[0] != ch);
        assert forall|j: int| 0 <= j < k - 1 implies t[j] != ch by {
            assert(t[j] == s[j + 1]);
        }
        assert(k - 1 == t.len() || t[k - 1] == ch);
        lemma_first_occurrence(t, ch, k - 1);
    }
}

/// `leading_count` is the unique `k` with only `ch` before it and something
/// else (or the end) at it.
pub proof fn lemma_leading_count(s: Seq<char>, ch: char, k: int)
    requires
        0 <= k <= s.len(),
        forall|j: int| 0 <= j < k ==> s[j] == ch,
        k == s.len() || s[k] != ch,
    ensures
        leading_count(s, ch) == k,
    decreases s.len(),
{
    if s.len() > 0 && k > 0 {
        let t = s.subrange(1, s.len() as int);
        assert(s[0] == ch);
        assert forall|j: int| 0 <= j < k - 1 implies t[j] == ch by {
            assert(t[j] == s[j + 1]);
        }
        assert(k - 1 == t.len() || t[k - 1] != ch);
        lemma_leading_count(t, ch, k - 1);
    }
}

/// The path after its leading slashes.
pub open spec fn trimmed_path(path: Seq<char>) -> Seq<char> {
    path.subrange(leading_count(path, '/'), path.len() as int)
}

/// Splits the next component off a path: the leading slashes are dropped,
/// the component runs to the next slash, and the remainder starts after
/// that slash (empty when there is none).  `None` exactly when nothing but
/// slashes is left.
pub fn next_path_component<'a>(path: &'a str) -> (r: Option<(&'a str, &'a str)>)
    ensures
        ({
            let t = trimmed_path(path@);
            match r {
                None => t.len() == 0,
                Some((component, rest)) => {
                    let fs = first_occurrence(t, '/');
                    &&& t.len() > 0
                    &&& component@ == t.subrange(0, fs)
                    &&& rest@ == if fs < t.len() {
                        t.subrange(fs + 1, t.len() as int)
                    } else {
                        Seq::<char>::empty()
                    }
                },
            }
        }),
{
    let len = path.unicode_len();
    let mut start: usize = 0;
    while start < len && path.get_char(start) == '/'
        invariant
            len == path@.len(),
            start <= len,
            forall|j: int| 0 <= j < start ==> path@[j] == '/',
        decreases len - start,
    {
        start = start + 1;
    }
    proof {
        lemma_leading_count(path@, '/', start as int);
    }
    if start == len {
        return None;
    }

    let mut end: usize = start;
    while end < len && path.get_char(end) != '/'
        invariant
            len == path@.len(),
            start <= end <= len,
            forall|j: int| start <= j < end ==> path@[j] != '/',
        decreases len - end,
    {
        end = end + 1;
    }
    proof {
        let t = trimmed_path(path@);
        assert forall|j: int| 0 <= j < end - start implies t[j] != '/' by {
            assert(t[j] == path@[start + j]);
        }
        if end < len {
            assert(t[end - start] == path@[end as int]);
        }
        lemma_first_occurrence(t, '/', end - start);
    }

    let component = path.substring_char(start, end);
    let rest = if end < len {
        path.substring_char(end + 1, len)
    } else {
        proof {
            reveal_strlit("");
        }
        ""
    };
    proof {
        let t = trimmed_path(path@);
        assert(component@ =~= t.subrange(0, end - start));
        if end < len {
            assert(rest@ =~= t.subrange(end - start + 1, t.len() as int));
        }
    }
    Some((component, rest))
}

/// Whether `c` is a decimal digit.
pub open spec fn is_digit(c: char) -> bool {
    48 <= c as u32 <= 57
}

/// The value of a string of decimal digits, most significant first.
pub open spec fn dec_val(s: Seq<char>) -> int
    decreases s.len(),
{
    if s.len() == 0 {
        0
    } else {
        dec_val(s.drop_last()) * 10 + (s.last() as u32 - 48)
    }
}

/// Whether every character of `s` is a decimal digit.
pub open spec fn all_digits(s: Seq<char>) -> bool {
    forall|j: int| 0 <= j < s.len() ==> is_digit(#[trigger] s[j])
}

/// A non-empty, digits-only string whose value fits the given bound.
pub open spec fn is_dec_value(s: Seq<char>, bound: int) -> bool {
    s.len() > 0 && all_digits(s) && dec_val(s) <= bound
}

/// A digit string's value is non-negative and never goes down when digits
/// are appended.
proof fn lemma_dec_val_monotone(s: Seq<char>)
    requires
        all_digits(s),
    ensures
        s.len() > 0 ==> dec_val(s) >= dec_val(s.drop_last()),
        dec_val(s) >= 0,
    decreases s.len(),
{
    if s.len() > 0 {
        let d = s.drop_last();
        assert(all_digits(d)) by {
            assert(forall|j: int| 0 <= j < d.len() ==> d[j] == s[j] && is_digit(#[trigger] s[j]));
        }
        lemma_dec_val_monotone(d);
        assert(is_digit(s.last()));
    }
}

/// The comma-separated pieces of `s`, in order (a string without commas is
/// one piece; empty pieces are kept).
pub open spec fn segments(s: Seq<char>) -> Seq<Seq<char>>
    decreases s.len(),
{
    let fo = first_occurrence(s, ',');
    if fo < 0 || fo >= s.len() {
        seq![s]
    } else {
        seq![s.subrange(0, fo)] + segments(s.subrange(fo + 1, s.len() as int))
    }
}

/// The pieces that parse as values up to `bound`, as their values, in
/// order; pieces that do not parse are dropped.
pub open spec fn parsed_values(segs: Seq<Seq<char>>, bound: int) -> Seq<int>
    decreases segs.len(),
{
    if segs.len() == 0 {
        Seq::empty()
    } else {
        (if is_dec_value(segs[0], bound) {
            seq![dec_val(segs[0])]
        } else {
            Seq::<int>::empty()
        }) + parsed_values(segs.subrange(1, segs.len() as int), bound)
    }
}

/// Parses a whole string of digits as a value up to `bound` (at most
/// 65535): the value when the string is one, `None` otherwise.
fn parse_bounded(s: &str, bound: u32) -> (r: Option<u32>)
    requires
        bound <= 65535,
    ensures
        match r {
            Some(v) => is_dec_value(s@, bound as int) && v == dec_val(s@),
            None => !is_dec_value(s@, bound as int),
        },
{
    let len = s.unicode_len();
    if len == 0 {
        return None;
    }
    // acc tracks the value of the digits read, saturating just past the
    // bound: once the prefix exceeds the bound the whole string does.
    let mut acc: u32 = 0;
    let mut i: usize = 0;
    while i < len
        invariant
            len == s@.len(),
            bound <= 65535,
            i <= len,
            all_digits(s@.subrange(0, i as int)),
            if dec_val(s@.subrange(0, i as int)) <= bound {
                acc == dec_val(s@.subrange(0, i as int))
            } else {
                acc == bound + 1
            },
        decreases len - i,
    {
        let c = s.get_char(i);
        let u = c as u32;
        if u < 48 || u > 57 {
            proof {
                assert(s@.subrange(0, i as int) == s@.subrange(0, i as int));
                assert(!is_digit(s@[i as int]));
            }
            return None;
        }
        let d = u - 48;
        let ghost pre = s@.subrange(0, i as int);
        let ghost post = s@.subrange(0, i + 1);
        proof {
            assert(post.drop_last() == pre);
            assert(post.last() == s@[i as int]);
            lemma_dec_val_monotone(post);
        }
        let next = acc * 10 + d;
        acc = if next > bound {
            bound + 1
        } else {
            next
        };
        i = i + 1;
    }
    proof {
        assert(s@.subrange(0, len as int) == s@);
    }
    if acc > bound {
        None
    } else {
        Some(acc)
    }
}

/// Animation timing as a control surface sends it: transition and hold, in
/// seconds.
#[derive(Clone, Copy, Debug, PartialEq, Eq, Structural)]
pub struct AnimationSettings {
    pub transition_time: u16,
    pub hold_time: u16,
}

/// The raw color channels of a color request, each optional.
#[derive(Clone, Copy, Debug, PartialEq, Eq, Structural)]
pub struct RGB {
    pub r: Option<u8>,
    pub g: Option<u8>,
    pub b: Option<u8>,
}

/// An animation request: the devices to animate and, optionally, the hues
/// to rotate through, both as comma-separated numbers.
#[derive(Clone, Debug, PartialEq, Eq)]
pub struct AnimationQuery {
    pub lights: String,
    pub hues: Option<String>,
}

/// Parses every comma-separated piece of `s` as a value up to `bound`,
/// dropping pieces that do not parse.
fn parse_list(s: &str, bound: u32) -> (r: Vec<u32>)
    requires
        bound <= 65535,
    ensures
        r@.map_values(|v: u32| v as int) == parsed_values(segments(s@), bound as int),
        forall|j: int| 0 <= j < r@.len() ==> #[trigger] r@[j] <= bound,
{
    let len = s.unicode_len();
    let mut out: Vec<u32> = Vec::new();
    let mut p: usize = 0;
    let mut done: bool = false;
    proof {
        assert(s@.subrange(0, len as int) == s@);
    }
    while !done
        invariant
            len == s@.len(),
            bound <= 65535,
            p <= len,
            forall|j: int| 0 <= j < out@.len() ==> #[trigger] out@[j] <= bound,
            !done ==> parsed_values(segments(s@), bound as int) == out@.map_values(
                |v: u32| v as int,
            ) + parsed_values(segments(s@.subrange(p as int, len as int)), bound as int),
            done ==> out@.map_values(|v: u32| v as int) == parsed_values(
                segments(s@),
                bound as int,
            ),
        decreases len - p + (if done {
            0int
        } else {
            1int
        }),
    {
        let ghost suffix = s@.subrange(p as int, len as int);
        let mut c: usize = p;
        while c < len && s.get_char(c) != ','
            invariant
                len == s@.len(),
                p <= c <= len,
                forall|j: int| p <= j < c ==> s@[j] != ',',
            decreases len - c,
        {
            c = c + 1;
        }
        proof {
            assert forall|j: int| 0 <= j < c - p implies suffix[j] != ',' by {
                assert(suffix[j] == s@[p + j]);
            }
            if c < len {
                assert(suffix[c - p] == s@[c as int]);
            }
            lemma_first_occurrence(suffix, ',', c - p);
            assert(suffix.subrange(0, c - p) =~= s@.subrange(p as int, c as int));
        }
        let piece = s.substring_char(p, c);
        let ghost segs = segments(suffix);
        proof {
            if c < len {
                assert(segs == seq![suffix.subrange(0, c - p)] + segments(
                    suffix.subrange(c - p + 1, suffix.len() as int),
                ));
                assert(suffix.subrange(c - p + 1, suffix.len() as int) =~= s@.subrange(
                    c + 1,
                    len as int,
                ));
            } else {
                assert(segs == seq![suffix]);
                assert(piece@ =~= suffix);
            }
            assert(segs.subrange(1, segs.len() as int) == if c < len {
                segments(s@.subrange(c + 1, len as int))
            } else {
                Seq::<Seq<char>>::empty()
            });
        }
        match parse_bounded(piece, bound) {
            Some(v) => {
                out.push(v);
            },
            None => {},
        }
        proof {
            assert(parsed_values(segs, bound as int) == (if is_dec_value(piece@, bound as int) {
                seq![dec_val(piece@)]
            } else {
                Seq::<int>::empty()
            }) + parsed_values(segs.subrange(1, segs.len() as int), bound as int));
        }
        if c == len {
            done = true;
            proof {
                assert(parsed_values(Seq::<Seq<char>>::empty(), bound as int)
                    == Seq::<int>::empty());
                assert(out@.map_values(|v: u32| v as int) =~= parsed_values(
                    segments(s@),
                    bound as int,
                ));
            }
        } else {
            p = c + 1;
            proof {
                assert(parsed_values(segments(s@), bound as int) =~= out@.map_values(
                    |v: u32| v as int,
                ) + parsed_values(segments(s@.subrange(p as int, len as int)), bound as int));
            }
        }
    }
    out
}

impl AnimationQuery {
    /// The requested device numbers: every comma-separated piece of
    /// `lights` that parses as a device number, in order.
    pub fn light_vec(&self) -> (r: Vec<u8>)
        ensures
            r@.map_values(|v: u8| v as int) == parsed_values(segments(self.lights@), 255),
    {
        let raw = parse_list(self.lights.as_str(), 255);
        let n = raw.len();
        let mut out: Vec<u8> = Vec::new();
        let mut i: usize = 0;
        while i < n
            invariant
                n == raw@.len(),
                i <= n,
                out@.len() == i,
                forall|j: int| 0 <= j < n ==> #[trigger] raw@[j] <= 255,
                forall|j: int| 0 <= j < i ==> #[trigger] out@[j] == raw@[j] as u8,
            decreases n - i,
        {
            out.push(raw[i] as u8);
            i = i + 1;
        }
        proof {
            assert(out@.map_values(|v: u8| v as int) =~= raw@.map_values(|v: u32| v as int));
        }
        out
    }

    /// The requested hues, when a hue list was given: every comma-separated
    /// piece of `hues` that parses as a hue, in order.
    pub fn hue_vec(&self) -> (r: Option<Vec<u16>>)
        ensures
            match r {
                Some(hs) => self.hues is Some && hs@.map_values(|v: u16| v as int)
                    == parsed_values(segments(self.hues->0@), 65535),
                None => self.hues is None,
            },
    {
        let hues = match &self.hues {
            Some(h) => h,
            None => {
                return None;
            },
        };
        let raw = parse_list(hues.as_str(), 65535);
        let n = raw.len();
        let mut out: Vec<u16> = Vec::new();
        let mut i: usize = 0;
        while i < n
            invariant
                n == raw@.len(),
                i <= n,
                out@.len() == i,
                forall|j: int| 0 <= j < n ==> #[trigger] raw@[j] <= 65535,
                forall|j: int| 0 <= j < i ==> #[trigger] out@[j] == raw@[j] as u16,
            decreases n - i,
        {
            out.push(raw[i] as u16);
            i = i + 1;
        }
        proof {
            assert(out@.map_values(|v: u16| v as int) =~= raw@.map_values(|v: u32| v as int));
        }
        Some(out)
    }
}

/// What every successful request answers.
#[derive(Clone, Debug, PartialEq, Eq)]
pub struct HooResponse {
    pub message: String,
}

impl Default for HooResponse {
    /// The plain success message.
    fn default() -> (r: HooResponse)
        ensures
            r.message@ == "success"@,
    {
        HooResponse { message: String::from_str("success") }
    }
}

/// The error a request answers when the engine could not serve it.
#[derive(Clone, Copy, Debug, PartialEq, Eq, Structural, Default)]
pub struct HooError {}

} // verus!
