//! Reusable pieces for exercising handlers and middleware: a signal carrying a
//! message, an empty signal, and a layer that tags each message it passes
//! with its own number, which shows the order in which middleware runs.

use vstd::prelude::*;
use vstd::string::StringExecFns;

verus! {

/// A signal type carrying a message.
pub struct Signal {
    /// The message content of the signal.
    pub message: String,
}

impl Signal {
    /// Creates a signal with the given message.
    pub fn new(message: &str) -> (r: Self)
        ensures
            r.message@ == message@,
    {
        Signal { message: String::from_str(message) }
    }
}

/// Signal type for handlers that take no signal.
pub struct EmptySignal;

/// Signal types whose message middleware can extend.
pub trait MessageModifiable {
    /// The message content.
    spec fn message(&self) -> Seq<char>;

    /// Appends `suffix` to the message content.
    fn modify_message(&mut self, suffix: &str)
        ensures
            final(self).message() == old(self).message() + suffix@,
    ;
}

impl MessageModifiable for Signal {
    open spec fn message(&self) -> Seq<char> {
        self.message@
    }

    fn modify_message(&mut self, suffix: &str) {
        self.message.append(suffix);
    }
}

/// The character of the decimal digit `d`.
pub open spec fn digit_char(d: nat) -> char {
    if d == 0 { '0' }
    else if d == 1 { '1' }
    else if d == 2 { '2' }
    else if d == 3 { '3' }
    else if d == 4 { '4' }
    else if d == 5 { '5' }
    else if d == 6 { '6' }
    else if d == 7 { '7' }
    else if d == 8 { '8' }
    else { '9' }
}

/// The decimal representation of `n`, most significant digit first, without
/// leading zeros.
pub open spec fn decimal(n: nat) -> Seq<char>
    decreases n,
{
    if n < 10 {
        seq![digit_char(n)]
    } else {
        decimal(n / 10).push(digit_char(n % 10))
    }
}

/// `c` is one of the ASCII digits `0` to `9`.
pub open spec fn is_digit(c: char) -> bool {
    '0' <= c && c <= '9'
}

/// The value of the ASCII digit `c`.
pub open spec fn digit_value(c: char) -> int {
    (c as int) - ('0' as int)
}

/// The number that the digits `s` denote in base ten, most significant
/// digit first.
pub open spec fn numeral_value(s: Seq<char>) -> int
    decreases s.len(),
{
    if s.len() == 0 {
        0
    } else {
        10 * numeral_value(s.drop_last()) + digit_value(s.last())
    }
}

/// `s` is a base-ten numeral as written normally: at least one digit, only
/// digits, and no leading zero unless the numeral is `0` itself.
pub open spec fn is_numeral(s: Seq<char>) -> bool {
    &&& s.len() >= 1
    &&& forall|i: int| 0 <= i < s.len() ==> is_digit(#[trigger] s[i])
    &&& (s[0] == '0' ==> s.len() == 1)
}

proof fn lemma_digit_char(d: nat)
    requires
        d < 10,
    ensures
        is_digit(digit_char(d)),
        digit_value(digit_char(d)) == d,
        digit_char(d) == '0' <==> d == 0,
{
    assert(('0' as int) == 48);
    if d == 0 {} else if d == 1 { assert(('1' as int) == 49); }
    else if d == 2 { assert(('2' as int) == 50); }
    else if d == 3 { assert(('3' as int) == 51); }
    else if d == 4 { assert(('4' as int) == 52); }
    else if d == 5 { assert(('5' as int) == 53); }
    else if d == 6 { assert(('6' as int) == 54); }
    else if d == 7 { assert(('7' as int) == 55); }
    else if d == 8 { assert(('8' as int) == 56); }
    else { assert(('9' as int) == 57); }
}

/// `decimal(n)` is the ordinary base-ten numeral of `n`: only digits, no
/// leading zero (unless `n` is zero, written `0`), and its digits denote
/// exactly `n`.
pub proof fn lemma_decimal_is_numeral_of(n: nat)
    ensures
        is_numeral(decimal(n)),
        numeral_value(decimal(n)) == n,
        n == 0 ==> decimal(n) == seq!['0'],
    decreases n,
{
    if n < 10 {
        lemma_digit_char(n);
        let s = decimal(n);
        assert(s.drop_last() =~= Seq::<char>::empty());
        assert(numeral_value(s.drop_last()) == 0);
        assert(s.last() == digit_char(n));
    } else {
        lemma_decimal_is_numeral_of(n / 10);
        lemma_digit_char(n % 10);
        let prefix = decimal(n / 10);
        let s = decimal(n);
        assert(s.drop_last() =~= prefix);
        assert(s[0] == prefix[0]);
        assert(prefix[0] != '0') by {
            if prefix[0] == '0' {
                assert(prefix.len() == 1);
                assert(prefix.drop_last() =~= Seq::<char>::empty());
                assert(numeral_value(prefix.drop_last()) == 0);
                assert(prefix.last() == prefix[0]);
                assert(numeral_value(prefix) == digit_value(prefix[0]));
            }
        }
        assert forall|i: int| 0 <= i < s.len() implies is_digit(#[trigger] s[i]) by {
            if i < prefix.len() {
                assert(s[i] == prefix[i]);
            }
        }
        assert(s.last() == digit_char(n % 10));
        assert(n == 10 * (n / 10) + n % 10);
        assert(numeral_value(s) == 10 * numeral_value(prefix) + digit_value(s.last()));
    }
}

/// Two numerals denote the same number only when they are the same
/// numeral: a number has one base-ten numeral.
pub proof fn lemma_numeral_unique(s: Seq<char>, t: Seq<char>)
    requires
        is_numeral(s),
        is_numeral(t),
        numeral_value(s) == numeral_value(t),
    ensures
        s == t,
    decreases s.len() + t.len(),
{
    lemma_numeral_value_bounds(s);
    lemma_numeral_value_bounds(t);
    let ds = digit_value(s.last());
    let dt = digit_value(t.last());
    assert(0 <= ds < 10 && 0 <= dt < 10) by {
        assert(is_digit(s[s.len() - 1]));
        assert(is_digit(t[t.len() - 1]));
    }
    let ps = s.drop_last();
    let pt = t.drop_last();
    lemma_numeral_value_bounds_prefix(ps);
    lemma_numeral_value_bounds_prefix(pt);
    assert(ds == dt && numeral_value(ps) == numeral_value(pt)) by (nonlinear_arith)
        requires
            numeral_value(s) == 10 * numeral_value(ps) + ds,
            numeral_value(t) == 10 * numeral_value(pt) + dt,
            numeral_value(s) == numeral_value(t),
            0 <= ds < 10,
            0 <= dt < 10,
    ;
    assert(s.last() == t.last()) by {
        assert(s.last() as int == t.last() as int);
    }
    if ps.len() == 0 && pt.len() == 0 {
        assert(s =~= t);
    } else if ps.len() == 0 {
        assert(numeral_value(ps) == 0);
        lemma_leading_nonzero_positive(pt, t);
        assert(false);
    } else if pt.len() == 0 {
        assert(numeral_value(pt) == 0);
        lemma_leading_nonzero_positive(ps, s);
        assert(false);
    } else {
        assert(is_numeral(ps)) by {
            assert forall|i: int| 0 <= i < ps.len() implies is_digit(#[trigger] ps[i]) by {
                assert(ps[i] == s[i]);
            }
            assert(ps[0] == s[0]);
        }
        assert(is_numeral(pt)) by {
            assert forall|i: int| 0 <= i < pt.len() implies is_digit(#[trigger] pt[i]) by {
                assert(pt[i] == t[i]);
            }
            assert(pt[0] == t[0]);
        }
        lemma_numeral_unique(ps, pt);
        assert(s =~= ps.push(s.last()));
        assert(t =~= pt.push(t.last()));
    }
}

proof fn lemma_numeral_value_bounds(s: Seq<char>)
    requires
        is_numeral(s),
    ensures
        numeral_value(s) >= 0,
{
    lemma_numeral_value_bounds_prefix(s);
}

/// A sequence of digits denotes a number that is not negative.
proof fn lemma_numeral_value_bounds_prefix(s: Seq<char>)
    requires
        forall|i: int| 0 <= i < s.len() ==> is_digit(#[trigger] s[i]),
    ensures
        numeral_value(s) >= 0,
    decreases s.len(),
{
    if s.len() > 0 {
        let p = s.drop_last();
        assert forall|i: int| 0 <= i < p.len() implies is_digit(#[trigger] p[i]) by {
            assert(p[i] == s[i]);
        }
        lemma_numeral_value_bounds_prefix(p);
        assert(is_digit(s[s.len() - 1]));
    }
}

/// A nonempty prefix `p` of the numeral `s`, with `s` longer than `p`, starts
/// with a nonzero digit and so denotes a positive number.
proof fn lemma_leading_nonzero_positive(p: Seq<char>, s: Seq<char>)
    requires
        is_numeral(s),
        p.len() >= 1,
        p == s.drop_last(),
    ensures
        numeral_value(p) > 0,
    decreases p.len(),
{
    assert(p[0] == s[0]);
    assert(s.len() >= 2);
    assert(s[0] != '0');
    if p.len() == 1 {
        assert(p.drop_last() =~= Seq::<char>::empty());
        assert(numeral_value(p.drop_last()) == 0);
        assert(p.last() == p[0]);
        assert(is_digit(s[0]));
        assert(('0' as int) < (s[0] as int));
        assert(numeral_value(p) == digit_value(p[0]));
    } else {
        let q = p.drop_last();
        assert(is_numeral(p)) by {
            assert forall|i: int| 0 <= i < p.len() implies is_digit(#[trigger] p[i]) by {
                assert(p[i] == s[i]);
            }
        }
        assert(p.len() >= 2);
        lemma_leading_nonzero_positive(q, p);
        assert(is_digit(p[p.len() - 1])) by {
            assert(p[p.len() - 1] == s[p.len() - 1]);
        }
        assert(p.last() == p[p.len() - 1]);
        assert(numeral_value(p) == 10 * numeral_value(q) + digit_value(p.last()));
    }
}

/// The tag that layer `n` appends to a message: its number and a space.
pub open spec fn tag_of(n: nat) -> Seq<char> {
    decimal(n).push(' ')
}

/// The tag of layer `n` is the base-ten numeral of `n` followed by one
/// space, and nothing else.
pub proof fn lemma_tag_is_numeral_and_space(n: nat)
    ensures
        tag_of(n).last() == ' ',
        is_numeral(tag_of(n).drop_last()),
        numeral_value(tag_of(n).drop_last()) == n,
{
    lemma_decimal_is_numeral_of(n);
    assert(tag_of(n).drop_last() =~= decimal(n));
}

fn digit_str(d: usize) -> (r: &'static str)
    requires
        d < 10,
    ensures
        r@ == seq![digit_char(d as nat)],
{
    proof {
        reveal_strlit("0");
        reveal_strlit("1");
        reveal_strlit("2");
        reveal_strlit("3");
        reveal_strlit("4");
        reveal_strlit("5");
        reveal_strlit("6");
        reveal_strlit("7");
        reveal_strlit("8");
        reveal_strlit("9");
    }
    if d == 0 { "0" }
    else if d == 1 { "1" }
    else if d == 2 { "2" }
    else if d == 3 { "3" }
    else if d == 4 { "4" }
    else if d == 5 { "5" }
    else if d == 6 { "6" }
    else if d == 7 { "7" }
    else if d == 8 { "8" }
    else { "9" }
}

/// The decimal representation of `n`.
pub fn decimal_string(n: usize) -> (r: String)
    ensures
        r@ == decimal(n as nat),
        is_numeral(r@),
        numeral_value(r@) == n,
    decreases n,
{
    proof {
        lemma_decimal_is_numeral_of(n as nat);
    }
    if n < 10 {
        String::from_str(digit_str(n))
    } else {
        let mut s = decimal_string(n / 10);
        s.append(digit_str(n % 10));
        s
    }
}

/// The tag that layer `n` appends to each message it passes.
pub fn tag_string(n: usize) -> (r: String)
    ensures
        r@ == tag_of(n as nat),
        r@.last() == ' ',
        is_numeral(r@.drop_last()),
        numeral_value(r@.drop_last()) == n,
{
    let mut s = decimal_string(n);
    proof {
        reveal_strlit(" ");
    }
    s.append(" ");
    assert(s@.drop_last() =~= decimal(n as nat));
    s
}

/// A middleware layer that tags each message with its number `N`.
#[derive(Clone, Copy)]
pub struct TrackingLayer<const N: usize>;

/// The service a [`TrackingLayer`] wraps around an inner service.
pub struct TrackingService<const N: usize, S> {
    inner: S,
}

impl<const N: usize> TrackingLayer<N> {
    /// Wraps `inner` in the tagging service of this layer.
    pub fn layer<S>(&self, inner: S) -> (r: TrackingService<N, S>)
        ensures
            r.inner() == inner,
    {
        TrackingService { inner }
    }
}

impl<const N: usize, S> TrackingService<N, S> {
    /// The service a tagged request goes on to.
    pub closed spec fn inner(&self) -> S {
        self.inner
    }

    /// The inner service, lent out, so that readiness can be asked of it.
    pub fn inner_mut(&mut self) -> (r: &mut S)
        ensures
            *r == old(self).inner(),
            final(self).inner() == *final(r),
    {
        &mut self.inner
    }

    /// What a call does before going on: appends the tag of `N` to the
    /// request's message, and hands it to a fresh clone of the inner service.
    pub fn tag<T: MessageModifiable>(&self, req: T) -> (r: (S, T)) where S: Clone,
        ensures
            cloned(self.inner(), r.0),
            r.1.message() == req.message() + tag_of(N as nat),
    {
        let mut req = req;
        let suffix = tag_string(N);
        req.modify_message(suffix.as_str());
        (self.inner.clone(), req)
    }
}

impl<const N: usize, S: Clone> Clone for TrackingService<N, S> {
    /// A tagging service around a clone of the inner service.
    fn clone(&self) -> (r: Self)
        ensures
            cloned(self.inner(), r.inner()),
    {
        TrackingService { inner: self.inner.clone() }
    }
}

/// A message tagged by layer `n1` and then by layer `n2` carries the tag of
/// `n1` first, then the tag of `n2`. (Which layer a request passes first is
/// decided where the layers are composed, outside this library.)
pub proof fn lemma_outer_layer_tags_first(m: Seq<char>, after_outer: Seq<char>, after_inner: Seq<char>, n1: nat, n2: nat)
    requires
        after_outer == m + tag_of(n1),
        after_inner == after_outer + tag_of(n2),
    ensures
        after_inner == m + decimal(n1) + seq![' '] + decimal(n2) + seq![' '],
{
    assert(after_inner =~= m + decimal(n1) + seq![' '] + decimal(n2) + seq![' ']);
}

} // verus!
