//! Counting processed items and deciding when to report progress.
use vstd::prelude::*;

verus! {

/// Counts processed items out of a total, reporting every `step_size` items and
/// at the last one.
pub struct ProgressReporter {
    total: usize,
    current: usize,
    step_size: usize,
    message: String,
}

impl ProgressReporter {
    pub closed spec fn total(&self) -> nat {
        self.total as nat
    }

    pub closed spec fn current(&self) -> nat {
        self.current as nat
    }

    pub closed spec fn step_size(&self) -> nat {
        self.step_size as nat
    }

    pub closed spec fn message(&self) -> Seq<char> {
        self.message@
    }

    /// A reporter at zero, reporting about twenty times over the total.
    pub fn new(total: usize, message: String) -> (r: Self)
        ensures
            r.total() == total,
            r.current() == 0,
            r.step_size() == if total / 20 > 1 { total / 20 } else { 1 },
            r.message() == message@,
    {
        let q = total / 20;
        ProgressReporter { total, current: 0, step_size: if q > 1 { q } else { 1 }, message }
    }

    /// Reports every `step_size` items instead; a step of zero reports only at the total.
    pub fn with_step_size(self, step_size: usize) -> (r: Self)
        ensures
            r.total() == self.total(),
            r.current() == self.current(),
            r.step_size() == step_size,
            r.message() == self.message(),
    {
        ProgressReporter { step_size, ..self }
    }

    /// Counts one more item; returns whether this one is to be reported: a
    /// multiple of the step, or the total. The count saturates at `usize::MAX`.
    pub fn tick(&mut self) -> (r: bool)
        ensures
            final(self).total() == old(self).total(),
            final(self).step_size() == old(self).step_size(),
            final(self).message() == old(self).message(),
            final(self).current() == if old(self).current() < usize::MAX { old(self).current() + 1 } else { old(self).current() },
            r == ((final(self).step_size() > 0 && final(self).current() % final(self).step_size() == 0)
                || final(self).current() == final(self).total()),
    {
        if self.current < usize::MAX {
            self.current = self.current + 1;
        }
        (self.step_size > 0 && self.current % self.step_size == 0) || self.current == self.total
    }

    /// The line that reports the current count.
    pub fn status_line(&self) -> (r: String)
        ensures
            r@ == self.message() + " "@ + count_text(self.current(), self.total()),
    {
        let mut r = self.message.clone();
        r.append(" ");
        let c = count_string(self.current, self.total);
        r.append(c.as_str());
        r
    }

    /// Items counted so far.
    pub fn get_current(&self) -> (r: usize)
        ensures
            r == self.current(),
    {
        self.current
    }
}

/// `current/total` in decimal.
pub open spec fn count_text(current: nat, total: nat) -> Seq<char> {
    decimal(current) + "/"@ + decimal(total)
}

/// The decimal digits of `n`.
pub open spec fn decimal(n: nat) -> Seq<char>
    decreases n,
{
    if n < 10 {
        seq![digit_char(n)]
    } else {
        decimal(n / 10) + seq![digit_char(n % 10)]
    }
}

pub open spec fn digit_char(d: nat) -> char {
    if d == 0 { '0' } else if d == 1 { '1' } else if d == 2 { '2' } else if d == 3 { '3' } else if d == 4 { '4' }
    else if d == 5 { '5' } else if d == 6 { '6' } else if d == 7 { '7' } else if d == 8 { '8' } else { '9' }
}

fn digit(d: usize) -> (r: char)
    requires
        d < 10,
    ensures
        r == digit_char(d as nat),
{
    if d == 0 { '0' } else if d == 1 { '1' } else if d == 2 { '2' } else if d == 3 { '3' } else if d == 4 { '4' }
    else if d == 5 { '5' } else if d == 6 { '6' } else if d == 7 { '7' } else if d == 8 { '8' } else { '9' }
}

/// The decimal digits of `n`.
fn decimal_chars(n: usize) -> (r: Vec<char>)
    ensures
        r@ == decimal(n as nat),
    decreases n,
{
    if n < 10 {
        let mut r: Vec<char> = Vec::new();
        r.push(digit(n));
        assert(r@ =~= seq![digit_char(n as nat)]);
        r
    } else {
        let mut r = decimal_chars(n / 10);
        r.push(digit(n % 10));
        r
    }
}

/// `current/total` as a string.
fn count_string(current: usize, total: usize) -> (r: String)
    ensures
        r@ == count_text(current as nat, total as nat),
{
    let a = decimal_chars(current);
    let b = decimal_chars(total);
    let mut r = String::new();
    let mut i: usize = 0;
    while i < a.len()
        invariant
            i <= a.len(),
            r@ == a@.take(i as int),
        decreases a.len() - i,
    {
        push_char(&mut r, a[i]);
        assert(a@.take(i + 1) =~= a@.take(i as int).push(a@[i as int]));
        i = i + 1;
    }
    assert(a@.take(a.len() as int) =~= a@);
    r.append("/");
    let ghost mid = r@;
    let mut j: usize = 0;
    while j < b.len()
        invariant
            j <= b.len(),
            r@ == mid + b@.take(j as int),
        decreases b.len() - j,
    {
        push_char(&mut r, b[j]);
        assert(b@.take(j + 1) =~= b@.take(j as int).push(b@[j as int]));
        j = j + 1;
    }
    assert(b@.take(b.len() as int) =~= b@);
    r
}

/// Relies on `String::push`: the character is appended.
#[verifier::external_body]
fn push_char(s: &mut String, c: char)
    ensures
        final(s)@ == old(s)@.push(c),
{
    s.push(c);
}

} // verus!
