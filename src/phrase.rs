//! Passphrases: the text handed to the decryption probe for each code.
use vstd::prelude::*;

verus! {

/// The largest dot index whose character still fits in one byte.
pub const DOT_CHAR_MAX: u16 = 206;

/// The character of dot `d`: `'1'` for dot 0, then onwards in code order.
pub open spec fn dot_char_of(d: u16) -> char {
    ((49 + d) as u8) as char
}

/// The passphrase of a pattern: the characters of its dots, in order.
pub open spec fn phrase_of(p: Seq<u16>) -> Seq<char> {
    p.map_values(|d: u16| dot_char_of(d))
}

/// Every dot of `p` has a character of its own.
pub open spec fn encodable(p: Seq<u16>) -> bool {
    forall|i: int| 0 <= i < p.len() ==> p[i] <= DOT_CHAR_MAX
}

/// The decimal digit character of `d`.
pub open spec fn digit_of(d: int) -> char {
    ((48 + d) as u8) as char
}

/// The four-digit, zero-padded decimal text of `n`.
pub open spec fn pin_text(n: int) -> Seq<char> {
    seq![digit_of(n / 1000), digit_of(n / 100 % 10), digit_of(n / 10 % 10), digit_of(n % 10)]
}

/// The number that a four-digit decimal text stands for.
pub open spec fn pin_value(t: Seq<char>) -> int {
    (t[0] as int - 48) * 1000 + (t[1] as int - 48) * 100 + (t[2] as int - 48) * 10 + (t[3] as int
        - 48)
}

/// Distinct dots have distinct characters.
proof fn lemma_dot_char_injective(a: u16, b: u16)
    requires
        a <= DOT_CHAR_MAX,
        b <= DOT_CHAR_MAX,
        dot_char_of(a) == dot_char_of(b),
    ensures
        a == b,
{
}

/// Phrase encoding loses nothing: two patterns of one length with the same
/// phrase are the same pattern, and the empty pattern has the empty phrase.
pub proof fn lemma_phrase_injective(a: Seq<u16>, b: Seq<u16>)
    requires
        a.len() == b.len(),
        encodable(a),
        encodable(b),
        phrase_of(a) == phrase_of(b),
    ensures
        a == b,
        phrase_of(Seq::<u16>::empty()) == Seq::<char>::empty(),
{
    assert forall|i: int| 0 <= i < a.len() implies a[i] == b[i] by {
        assert(phrase_of(a)[i] == dot_char_of(a[i]));
        assert(phrase_of(b)[i] == dot_char_of(b[i]));
        lemma_dot_char_injective(a[i], b[i]);
    }
    assert(a =~= b);
    assert(phrase_of(Seq::<u16>::empty()) =~= Seq::<char>::empty());
}

/// Each number from 0 to 9999 has a text of four digits that reads back as
/// that number; so the texts of distinct numbers differ, and they follow the
/// numbers' order.
pub proof fn lemma_pin_text(n: int, m: int)
    requires
        0 <= n < m <= 9999,
    ensures
        pin_text(n).len() == 4,
        forall|i: int| 0 <= i < 4 ==> '0' <= #[trigger] pin_text(n)[i] <= '9',
        pin_value(pin_text(n)) == n,
        pin_value(pin_text(m)) == m,
        pin_value(pin_text(n)) < pin_value(pin_text(m)),
        pin_text(n) != pin_text(m),
{
    lemma_pin_value(n);
    lemma_pin_value(m);
}

proof fn lemma_pin_value(n: int)
    requires
        0 <= n <= 9999,
    ensures
        pin_value(pin_text(n)) == n,
{
    let t = pin_text(n);
    assert(t[0] as int - 48 == n / 1000);
    assert(t[1] as int - 48 == n / 100 % 10);
    assert(t[2] as int - 48 == n / 10 % 10);
    assert(t[3] as int - 48 == n % 10);
    assert((n / 1000) * 1000 + (n / 100 % 10) * 100 + (n / 10 % 10) * 10 + n % 10 == n) by (nonlinear_arith)
        requires 0 <= n <= 9999;
}

/// Relies on std's `String::push`: appends one character.
#[verifier::external_body]
fn push_char(s: &mut String, c: char)
    ensures
        final(s)@ == old(s)@.push(c),
{
    s.push(c)
}

/// The passphrase character of dot `pos`.
pub fn dot_char(pos: u16) -> (r: char)
    requires
        pos <= DOT_CHAR_MAX,
    ensures
        r == dot_char_of(pos),
        r as u32 == 49 + pos,
{
    ((49u8 + pos as u8) as char)
}

/// The passphrase of a pattern.
pub fn generate_phrase(pattern: &[&u16]) -> (r: String)
    requires
        forall|i: int| 0 <= i < pattern@.len() ==> *pattern@[i] <= DOT_CHAR_MAX,
    ensures
        r@ == phrase_of(pattern@.map_values(|d: &u16| *d)),
{
    let mut phrase = String::new();
    let mut i: usize = 0;
    while i < pattern.len()
        invariant
            i <= pattern@.len(),
            forall|k: int| 0 <= k < pattern@.len() ==> *pattern@[k] <= DOT_CHAR_MAX,
            phrase@ == phrase_of(pattern@.subrange(0, i as int).map_values(|d: &u16| *d)),
        decreases pattern@.len() - i,
    {
        let c = dot_char(*pattern[i]);
        push_char(&mut phrase, c);
        i = i + 1;
        assert(phrase@ =~= phrase_of(pattern@.subrange(0, i as int).map_values(|d: &u16| *d)));
    }
    assert(pattern@.subrange(0, i as int) =~= pattern@);
    phrase
}

fn digit_char(d: u16) -> (r: char)
    requires
        d <= 9,
    ensures
        r == digit_of(d as int),
{
    (48u8 + d as u8) as char
}

/// The four-digit, zero-padded text of a PIN code.
pub fn pin_code(pin: u16) -> (r: String)
    requires
        pin <= 9999,
    ensures
        r@ == pin_text(pin as int),
{
    let mut text = String::new();
    push_char(&mut text, digit_char(pin / 1000));
    push_char(&mut text, digit_char(pin / 100 % 10));
    push_char(&mut text, digit_char(pin / 10 % 10));
    push_char(&mut text, digit_char(pin % 10));
    assert(text@ =~= pin_text(pin as int));
    text
}

/// Every PIN code, from `0000` to `9999`, in ascending order.
pub fn pin_codes() -> (r: Vec<String>)
    ensures
        r@.len() == 10000,
        forall|i: int| 0 <= i < 10000 ==> #[trigger] r@[i]@ == pin_text(i),
        forall|i: int| 0 <= i < 10000 ==> #[trigger] pin_value(r@[i]@) == i && r@[i]@.len() == 4,
        forall|i: int, j: int| 0 <= i < j < 10000 ==> #[trigger] r@[i]@ != #[trigger] r@[j]@,
{
    let mut r: Vec<String> = Vec::new();
    let mut pin: u16 = 0;
    while pin <= 9999
        invariant
            pin <= 10000,
            r@.len() == pin,
            forall|i: int| 0 <= i < pin ==> #[trigger] r@[i]@ == pin_text(i),
        decreases 10000 - pin,
    {
        r.push(pin_code(pin));
        pin = pin + 1;
    }
    assert forall|i: int| 0 <= i < 10000 implies #[trigger] pin_value(r@[i]@) == i && r@[i]@.len() == 4 by {
        lemma_pin_value(i);
    }
    assert forall|i: int, j: int| 0 <= i < j < 10000 implies #[trigger] r@[i]@ != #[trigger] r@[j]@ by {
        lemma_pin_text(i, j);
    }
    r
}

} // verus!
