//! Text building blocks: decimal rendering of identifiers, entity names,
//! splitting on a separator, and
//! a line-oriented writer that accumulates text.
use vstd::prelude::*;
use crate::squid::{digit_value, digits_value, is_digit};

verus! {

/// The character of a decimal digit.
pub open spec fn digit_char(d: nat) -> char {
    if d == 0 { '0' }
    else if d == 1 { '1' }
    else if d == 2 { '2' }
    else if d == 3 { '3' }
    else if d == 4 { '4' }
    else if d == 5 { '5' }
    else if d == 6 { '6' }
    else if d == 7 { '7' }
    else if d == 8 { '8' }
    else { '9' }
}

/// The decimal digits of `n`, most significant first, without leading zeros.
pub open spec fn decimal(n: nat) -> Seq<char>
    decreases n,
{
    if n < 10 {
        seq![digit_char(n)]
    } else {
        decimal(n / 10).push(digit_char(n % 10))
    }
}

/// `decimal(n)` left-padded with `'0'` to a width of at least four.
pub open spec fn padded4(n: nat) -> Seq<char> {
    let d = decimal(n);
    if d.len() < 4 {
        Seq::new((4 - d.len()) as nat, |_i: int| '0') + d
    } else {
        d
    }
}

/// The name of an entity: its type tag, an underscore and its padded id.
pub open spec fn entity_name(tag: Seq<char>, id: u32) -> Seq<char> {
    tag + "_"@ + padded4(id as nat)
}

proof fn lemma_decimal_len(n: nat)
    ensures
        n < 10 ==> decimal(n).len() == 1,
        10 <= n < 100 ==> decimal(n).len() == 2,
        100 <= n < 1000 ==> decimal(n).len() == 3,
        1000 <= n ==> decimal(n).len() >= 4,
    decreases n,
{
    if n >= 10 {
        lemma_decimal_len(n / 10);
    }
}

proof fn lemma_digit_char(d: nat)
    requires
        d < 10,
    ensures
        digit_value(digit_char(d)) == d,
        is_digit(digit_char(d)),
{
}

proof fn lemma_decimal_value(n: nat)
    ensures
        digits_value(decimal(n)) == n,
        forall|i: int| 0 <= i < decimal(n).len() ==> is_digit(#[trigger] decimal(n)[i]),
    decreases n,
{
    if n < 10 {
        lemma_digit_char(n);
        assert(decimal(n).drop_last() =~= Seq::<char>::empty());
        assert(digits_value(Seq::<char>::empty()) == 0);
        assert(decimal(n).last() == digit_char(n));
    } else {
        lemma_decimal_value(n / 10);
        lemma_digit_char(n % 10);
        let pre = decimal(n / 10);
        assert(decimal(n).drop_last() =~= pre);
        assert(decimal(n).last() == digit_char(n % 10));
        assert(digits_value(decimal(n)) == (n / 10) * 10 + n % 10);
        assert((n / 10) * 10 + n % 10 == n) by (nonlinear_arith);
        assert forall|i: int| 0 <= i < decimal(n).len() implies is_digit(#[trigger] decimal(n)[i]) by {
            if i < pre.len() {
                assert(decimal(n)[i] == pre[i]);
            }
        }
    }
}

proof fn lemma_zeros_then(z: Seq<char>, b: Seq<char>)
    requires
        forall|i: int| 0 <= i < z.len() ==> #[trigger] z[i] == '0',
    ensures
        digits_value(z + b) == digits_value(b),
    decreases z.len() + b.len(),
{
    if b.len() == 0 {
        assert(z + b =~= z);
        if z.len() > 0 {
            assert forall|i: int| 0 <= i < z.drop_last().len() implies #[trigger] z.drop_last()[i] == '0' by {
                assert(z.drop_last()[i] == z[i]);
            }
            lemma_zeros_then(z.drop_last(), b);
            assert(z.drop_last() + b =~= z.drop_last());
        }
    } else {
        assert((z + b).drop_last() =~= z + b.drop_last());
        assert((z + b).last() == b.last());
        lemma_zeros_then(z, b.drop_last());
    }
}

/// A padded id is at least four digits long and denotes the id.
pub proof fn lemma_padded4_value(n: nat)
    ensures
        digits_value(padded4(n)) == n,
        padded4(n).len() >= 4,
        forall|i: int| 0 <= i < padded4(n).len() ==> is_digit(#[trigger] padded4(n)[i]),
{
    lemma_decimal_value(n);
    lemma_decimal_len(n);
    let d = decimal(n);
    if d.len() < 4 {
        let z = Seq::new((4 - d.len()) as nat, |_i: int| '0');
        lemma_zeros_then(z, d);
        assert forall|i: int| 0 <= i < padded4(n).len() implies is_digit(#[trigger] padded4(n)[i]) by {
            if i >= z.len() {
                assert(padded4(n)[i] == d[i - z.len()]);
            }
        }
    }
}

/// Distinct ids have distinct names.
pub proof fn lemma_entity_name_injective(tag: Seq<char>, a: u32, b: u32, suffix: Seq<char>)
    requires
        entity_name(tag, a) + suffix == entity_name(tag, b) + suffix,
    ensures
        a == b,
{
    let head = tag + "_"@;
    let na = entity_name(tag, a) + suffix;
    assert(na =~= head + padded4(a as nat) + suffix);
    assert(entity_name(tag, b) + suffix =~= head + padded4(b as nat) + suffix);
    assert(padded4(a as nat) =~= na.subrange(head.len() as int, na.len() - suffix.len()));
    assert(padded4(b as nat) =~= na.subrange(head.len() as int, na.len() - suffix.len()));
    lemma_padded4_value(a as nat);
    lemma_padded4_value(b as nat);
}

fn digit_str(d: u32) -> (r: &'static str)
    requires
        d < 10,
    ensures
        r@ == seq![digit_char(d as nat)],
{
    proof {
        reveal_strlit("0");
        reveal_strlit("1");
        reveal_strlit("2");
        reveal_strlit("3");
        reveal_strlit("4");
        reveal_strlit("5");
        reveal_strlit("6");
        reveal_strlit("7");
        reveal_strlit("8");
        reveal_strlit("9");
    }
    if d == 0 { "0" }
    else if d == 1 { "1" }
    else if d == 2 { "2" }
    else if d == 3 { "3" }
    else if d == 4 { "4" }
    else if d == 5 { "5" }
    else if d == 6 { "6" }
    else if d == 7 { "7" }
    else if d == 8 { "8" }
    else { "9" }
}

/// Renders `n` in decimal.
pub fn decimal_string(n: u32) -> (r: String)
    ensures
        r@ == decimal(n as nat),
{
    let mut acc = String::from_str(digit_str(n % 10));
    let mut m: u32 = n / 10;
    assert(n < 10 ==> decimal(n as nat) == acc@);
    while m > 0
        invariant
            m > 0 ==> decimal(n as nat) == decimal(m as nat) + acc@,
            m == 0 ==> decimal(n as nat) == acc@,
        decreases m,
    {
        let ghost old_acc = acc@;
        let mut next = String::from_str(digit_str(m % 10));
        next.append(acc.as_str());
        acc = next;
        proof {
            if m >= 10 {
                assert(decimal(m as nat) == decimal((m / 10) as nat).push(digit_char((m % 10) as nat)));
                assert(decimal(m as nat) + old_acc =~= decimal((m / 10) as nat) + acc@);
            } else {
                assert(decimal(m as nat) + old_acc =~= acc@);
            }
        }
        m = m / 10;
    }
    acc
}

/// Renders `n` in decimal, left-padded with zeros to four digits.
pub fn padded_id(n: u32) -> (r: String)
    ensures
        r@ == padded4(n as nat),
{
    let d = decimal_string(n);
    proof {
        lemma_decimal_len(n as nat);
        reveal_strlit("0");
        reveal_strlit("00");
        reveal_strlit("000");
    }
    if n < 10 {
        let r = String::from_str("000").concat(d.as_str());
        assert(r@ =~= padded4(n as nat));
        r
    } else if n < 100 {
        let r = String::from_str("00").concat(d.as_str());
        assert(r@ =~= padded4(n as nat));
        r
    } else if n < 1000 {
        let r = String::from_str("0").concat(d.as_str());
        assert(r@ =~= padded4(n as nat));
        r
    } else {
        d
    }
}

/// The name under which an entity appears in the proxy configuration, such
/// as `client_0007`: used both as an ACL name and as a file name stem.
pub fn id_string(tag: &str, id: u32) -> (r: String)
    ensures
        r@ == entity_name(tag@, id),
{
    let r = String::from_str(tag).concat("_").concat(padded_id(id).as_str());
    assert(r@ =~= entity_name(tag@, id));
    r
}

/// What `str::split` gives for `s` and the separator `sep`.
pub uninterp spec fn pieces(s: Seq<char>, sep: Seq<char>) -> Seq<Seq<char>>;

/// Relies on `str::split` with a string separator: the pieces of `s`
/// between occurrences of `sep`, in order.
#[verifier::external_body]
pub(crate) fn split_str(s: &str, sep: &str) -> (r: Vec<String>)
    ensures
        r@.map_values(|p: String| p@) == pieces(s@, sep@),
{
    s.split(sep).map(|p| p.to_string()).collect()
}

/// Accumulates text one line at a time; each line ends with a newline.
pub struct NiceLineWriter {
    inner: String,
}

impl View for NiceLineWriter {
    type V = Seq<char>;

    closed spec fn view(&self) -> Seq<char> {
        self.inner@
    }
}

impl NiceLineWriter {
    /// A writer that holds no text yet.
    pub fn new() -> (r: NiceLineWriter)
        ensures
            r@ == Seq::<char>::empty(),
    {
        NiceLineWriter { inner: String::new() }
    }

    /// Appends `s` followed by a newline.
    pub fn writeln(&mut self, s: &str)
        ensures
            final(self)@ == old(self)@ + s@ + "\n"@,
    {
        self.inner.append(s);
        self.inner.append("\n");
    }

    /// The text written so far.
    pub fn into_string(self) -> (r: String)
        ensures
            r@ == self@,
    {
        self.inner
    }
}

} // verus!
