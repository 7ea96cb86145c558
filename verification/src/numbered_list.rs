//! Hierarchical section numbering for the renderer: a non-empty list of
//! counters (`1`, `1.2`, `1.2.3`, ...) that can step forward at the current
//! level, descend one level, climb back up, or be forced to a given value.
use vstd::prelude::*;
use vstd::string::StringExecFns;
use crate::text::{dec_digits, digit_val, is_digit, scan_to_char, split_char, split_char_from, str_chars, u32_to_string};

verus! {

/// Error returned by [`NumberedList::force`] when the given text is not a
/// `.`-separated list of decimal `u32` values.
#[derive(Debug, Clone, PartialEq, Eq)]
pub struct ParseNumberError {}

/// The rendering of one counter list: the decimal digits of each entry, in
/// order, separated by `'.'`.
pub open spec fn spec_recall(list: Seq<u32>) -> Seq<char>
    decreases list.len(),
{
    if list.len() == 0 {
        Seq::empty()
    } else if list.len() == 1 {
        dec_digits(list[0] as nat)
    } else {
        spec_recall(list.drop_last()) + seq!['.'] + dec_digits(list.last() as nat)
    }
}

/// The `'.'`-separated components of `s`.
pub open spec fn split_dots(s: Seq<char>) -> Seq<Seq<char>> {
    split_char(s, '.')
}

/// The value of `s` read as decimal digits, most significant first.
pub open spec fn dec_val(s: Seq<char>) -> nat
    decreases s.len(),
{
    if s.len() == 0 {
        0
    } else {
        dec_val(s.drop_last()) * 10 + digit_val(s.last())
    }
}

/// Whether `s` is a valid decimal rendering of a `u32`: non-empty, digits
/// only, and within range.
pub open spec fn is_dec_u32(s: Seq<char>) -> bool {
    &&& s.len() > 0
    &&& (forall|k: int| 0 <= k < s.len() ==> is_digit(#[trigger] s[k]))
    &&& dec_val(s) <= u32::MAX
}

proof fn lemma_dec_val_prefix_le(s: Seq<char>, j: int, k: int)
    requires
        0 <= j <= k <= s.len(),
    ensures
        dec_val(s.subrange(0, j)) <= dec_val(s.subrange(0, k)),
    decreases k - j,
{
    if j < k {
        lemma_dec_val_prefix_le(s, j, k - 1);
        assert(s.subrange(0, k).drop_last() =~= s.subrange(0, k - 1));
    }
}

/// Parses `v[from .. to]` as a decimal `u32`; `None` exactly when that range
/// is not a valid in-range digit string.
fn parse_u32_range(v: &Vec<char>, from: usize, to: usize) -> (r: Option<u32>)
    requires
        from <= to <= v@.len(),
    ensures
        r is Some <==> is_dec_u32(v@.subrange(from as int, to as int)),
        r matches Some(x) ==> x as nat == dec_val(v@.subrange(from as int, to as int)),
{
    let ghost whole = v@.subrange(from as int, to as int);
    if from == to {
        return None;
    }
    let mut acc: u32 = 0;
    let mut i: usize = from;
    while i < to
        invariant
            from <= i <= to,
            forall|k: int| from <= k < i ==> is_digit(#[trigger] v@[k]),
            acc as nat == dec_val(v@.subrange(from as int, i as int)),
        decreases to - i,
    {
        let c = v[i];
        if !('0' <= c && c <= '9') {
            assert(!is_dec_u32(whole)) by {
                assert(whole[i - from] == c);
            }
            return None;
        }
        let d: u32 = (c as u32) - ('0' as u32);
        assert(d == digit_val(c) && d <= 9);
        if acc > 429496729 || (acc == 429496729 && d > 5) {
            assert(acc as nat * 10 + d > u32::MAX);
            assert(!is_dec_u32(whole)) by {
                assert(v@.subrange(from as int, i as int + 1).drop_last() =~= v@.subrange(
                    from as int,
                    i as int,
                ));
                assert(dec_val(v@.subrange(from as int, i as int + 1)) > u32::MAX);
                lemma_dec_val_prefix_le(whole, i as int + 1 - from, whole.len() as int);
                assert(whole.subrange(0, i as int + 1 - from) =~= v@.subrange(
                    from as int,
                    i as int + 1,
                ));
                assert(whole.subrange(0, whole.len() as int) =~= whole);
            }
            return None;
        }
        assert(v@.subrange(from as int, i as int + 1).drop_last() =~= v@.subrange(
            from as int,
            i as int,
        ));
        acc = acc * 10 + d;
        i = i + 1;
    }
    assert(whole =~= v@.subrange(from as int, to as int));
    assert(forall|k: int| 0 <= k < whole.len() ==> is_digit(#[trigger] whole[k]));
    Some(acc)
}

/// A non-empty stack of section counters with a fixed `.` separator.
pub struct NumberedList {
    list: Vec<u32>,
    sep: String,
}

impl View for NumberedList {
    type V = Seq<u32>;

    closed spec fn view(&self) -> Seq<u32> {
        self.list@
    }
}

impl NumberedList {
    /// Well-formedness: at least one counter is always present, and the
    /// separator is the literal dot.
    pub closed spec fn wf(&self) -> bool {
        self.list@.len() >= 1 && self.sep@ == seq!['.']
    }

    /// A fresh numbering, starting at section `1`.
    pub fn new() -> (r: Self)
        ensures
            r.wf(),
            r@ == seq![1u32],
    {
        let sep = ".".to_owned();
        proof {
            reveal_strlit(".");
            assert(sep@ =~= seq!['.']);
        }
        let r = NumberedList { list: vec![1u32], sep };
        assert(r@ =~= seq![1u32]);
        r
    }

    /// The current section number, e.g. `"1.2.3"`.
    pub fn recall(&self) -> (r: String)
        requires
            self.wf(),
        ensures
            r@ == spec_recall(self@),
    {
        let mut r = String::new();
        let mut i: usize = 0;
        while i < self.list.len()
            invariant
                i <= self.list@.len(),
                r@ == spec_recall(self@.take(i as int)),
            decreases self.list@.len() - i,
        {
            if i > 0 {
                r.append(self.sep.as_str());
            }
            let digits = u32_to_string(self.list[i]);
            r.append(digits.as_str());
            proof {
                let t = self@.take(i as int + 1);
                assert(t.drop_last() =~= self@.take(i as int));
                assert(t.last() == self@[i as int]);
                assert(r@ =~= spec_recall(t));
            }
            i = i + 1;
        }
        assert(self@.take(self.list@.len() as int) =~= self@);
        r
    }

    /// Advances the counter of the innermost level by one.
    pub fn step_forward(&mut self)
        requires
            old(self).wf(),
            old(self)@.last() < u32::MAX,
        ensures
            final(self).wf(),
            final(self)@ == old(self)@.update(old(self)@.len() - 1, (old(self)@.last() + 1) as u32),
    {
        let n = self.list.len();
        let last = self.list[n - 1];
        self.list[n - 1] = last + 1;
    }

    /// Returns the current number, then advances the innermost level.
    pub fn recall_and_step_forward(&mut self) -> (r: String)
        requires
            old(self).wf(),
            old(self)@.last() < u32::MAX,
        ensures
            final(self).wf(),
            r@ == spec_recall(old(self)@),
            final(self)@ == old(self)@.update(old(self)@.len() - 1, (old(self)@.last() + 1) as u32),
    {
        let r = self.recall();
        self.step_forward();
        r
    }

    /// Advances the innermost level, then returns the new number.
    pub fn step_forward_and_recall(&mut self) -> (r: String)
        requires
            old(self).wf(),
            old(self)@.last() < u32::MAX,
        ensures
            final(self).wf(),
            final(self)@ == old(self)@.update(old(self)@.len() - 1, (old(self)@.last() + 1) as u32),
            r@ == spec_recall(final(self)@),
    {
        self.step_forward();
        self.recall()
    }

    /// Opens a new nested level, starting at `1`.
    pub fn go_downstairs(&mut self)
        requires
            old(self).wf(),
        ensures
            final(self).wf(),
            final(self)@ == old(self)@.push(1u32),
    {
        self.list.push(1);
    }

    /// Returns the current number, then opens a new nested level.
    pub fn recall_and_go_downstairs(&mut self) -> (r: String)
        requires
            old(self).wf(),
        ensures
            final(self).wf(),
            r@ == spec_recall(old(self)@),
            final(self)@ == old(self)@.push(1u32),
    {
        let r = self.recall();
        self.go_downstairs();
        r
    }

    /// Opens a new nested level, then returns the new number.
    pub fn go_downstairs_and_recall(&mut self) -> (r: String)
        requires
            old(self).wf(),
        ensures
            final(self).wf(),
            final(self)@ == old(self)@.push(1u32),
            r@ == spec_recall(final(self)@),
    {
        self.go_downstairs();
        self.recall()
    }

    /// Closes the innermost level; the outermost level never closes.
    pub fn go_upstairs(&mut self)
        requires
            old(self).wf(),
        ensures
            final(self).wf(),
            final(self)@ == if old(self)@.len() > 1 {
                old(self)@.drop_last()
            } else {
                old(self)@
            },
    {
        if self.list.len() > 1 {
            let _ = self.list.pop();
        }
    }

    /// Returns the current number, then closes the innermost level.
    pub fn recall_and_go_upstairs(&mut self) -> (r: String)
        requires
            old(self).wf(),
        ensures
            final(self).wf(),
            r@ == spec_recall(old(self)@),
            final(self)@ == if old(self)@.len() > 1 {
                old(self)@.drop_last()
            } else {
                old(self)@
            },
    {
        let r = self.recall();
        self.go_upstairs();
        r
    }

    /// Closes the innermost level, then returns the new number.
    pub fn go_upstairs_and_recall(&mut self) -> (r: String)
        requires
            old(self).wf(),
        ensures
            final(self).wf(),
            final(self)@ == if old(self)@.len() > 1 {
                old(self)@.drop_last()
            } else {
                old(self)@
            },
            r@ == spec_recall(final(self)@),
    {
        self.go_upstairs();
        self.recall()
    }

    /// Replaces the counters with the `.`-separated decimal values in
    /// `new_number`; succeeds exactly when every component is a valid
    /// in-range digit string, and leaves the list unchanged otherwise.
    pub fn force(&mut self, new_number: &str) -> (r: Result<(), ParseNumberError>)
        requires
            old(self).wf(),
        ensures
            final(self).wf(),
            ({
                let comps = split_dots(new_number@);
                match r {
                    Ok(()) => {
                        &&& (forall|k: int| 0 <= k < comps.len() ==> is_dec_u32(#[trigger] comps[k]))
                        &&& final(self)@.len() == comps.len()
                        &&& (forall|k: int|
                            0 <= k < comps.len() ==> (#[trigger] final(self)@[k]) as nat == dec_val(
                                comps[k],
                            ))
                    },
                    Err(_) => {
                        &&& !(forall|k: int|
                            0 <= k < comps.len() ==> is_dec_u32(#[trigger] comps[k]))
                        &&& final(self)@ == old(self)@
                    },
                }
            }),
    {
        let chars = str_chars(new_number);
        let ghost comps = split_dots(new_number@);
        let mut values: Vec<u32> = Vec::new();
        let mut pos: usize = 0;
        let ghost k: int = 0;
        loop
            invariant
                0 <= k,
                pos <= chars@.len(),
                chars@ == new_number@,
                values@.len() == k,
                self == old(self),
                k + split_char_from(new_number@, pos as int, '.').len() == comps.len(),
                comps.skip(k) =~= split_char_from(new_number@, pos as int, '.'),
                forall|m: int| 0 <= m < k ==> is_dec_u32(#[trigger] comps[m]),
                forall|m: int|
                    0 <= m < k ==> (#[trigger] values@[m]) as nat == dec_val(comps[m]),
            decreases chars@.len() - pos + 1,
        {
            let mut j: usize = pos;
            while j < chars.len() && chars[j] != '.'
                invariant
                    pos <= j <= chars@.len(),
                    scan_to_char(chars@, pos as int, '.') == scan_to_char(chars@, j as int, '.'),
                decreases chars@.len() - j,
            {
                j = j + 1;
            }
            assert(scan_to_char(chars@, pos as int, '.') == j as int);
            proof {
                assert(comps.skip(k)[0] =~= comps[k]);
            }
            match parse_u32_range(&chars, pos, j) {
                Some(x) => {
                    values.push(x);
                },
                None => {
                    assert(comps[k] == new_number@.subrange(
                        pos as int,
                        scan_to_char(new_number@, pos as int, '.'),
                    ) || comps[k] == new_number@.subrange(pos as int, new_number@.len() as int));
                    assert(!is_dec_u32(comps[k]));
                    return Err(ParseNumberError {});
                },
            }
            proof {
                assert(comps.skip(k + 1) =~= comps.skip(k).skip(1));
            }
            if j == chars.len() {
                proof {
                    assert(split_char_from(new_number@, pos as int, '.').len() == 1);
                    assert(k + 1 == comps.len());
                }
                break;
            }
            pos = j + 1;
            proof {
                k = k + 1;
            }
        }
        assert(values@.len() >= 1);
        self.list = values;
        Ok(())
    }
}

} // verus!
