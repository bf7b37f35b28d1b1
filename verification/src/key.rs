use vstd::prelude::*;
use vstd::string::*;
use crate::ident::RawID;

verus! {

/// The upper-case hexadecimal digit for a number below sixteen.
pub open spec fn hex_digit(d: nat) -> char {
    if d == 0 {
        '0'
    } else if d == 1 {
        '1'
    } else if d == 2 {
        '2'
    } else if d == 3 {
        '3'
    } else if d == 4 {
        '4'
    } else if d == 5 {
        '5'
    } else if d == 6 {
        '6'
    } else if d == 7 {
        '7'
    } else if d == 8 {
        '8'
    } else if d == 9 {
        '9'
    } else if d == 10 {
        'A'
    } else if d == 11 {
        'B'
    } else if d == 12 {
        'C'
    } else if d == 13 {
        'D'
    } else if d == 14 {
        'E'
    } else {
        'F'
    }
}

/// A number in upper-case hexadecimal digits, without leading zeros; zero is
/// the single digit `0`.
pub open spec fn upper_hex(n: nat) -> Seq<char>
    decreases n,
{
    if n < 16 {
        seq![hex_digit(n)]
    } else {
        upper_hex(n / 16).push(hex_digit(n % 16))
    }
}

/// The text under which the presentation surface files what belongs to an
/// entity: the class, the instance, the version and the machine of its
/// address in hexadecimal digits, set apart by `_`, `.` and `@`.
pub open spec fn key_text(id: RawID) -> Seq<char> {
    upper_hex(id.type_id as nat) + seq!['_'] + upper_hex(id.instance_id as nat) + seq!['.']
        + upper_hex(id.version as nat) + seq!['@'] + upper_hex(id.machine as nat)
}

/// The number that a hexadecimal digit stands for.
pub open spec fn digit_value(c: char) -> nat {
    if c == '0' {
        0
    } else if c == '1' {
        1
    } else if c == '2' {
        2
    } else if c == '3' {
        3
    } else if c == '4' {
        4
    } else if c == '5' {
        5
    } else if c == '6' {
        6
    } else if c == '7' {
        7
    } else if c == '8' {
        8
    } else if c == '9' {
        9
    } else if c == 'A' {
        10
    } else if c == 'B' {
        11
    } else if c == 'C' {
        12
    } else if c == 'D' {
        13
    } else if c == 'E' {
        14
    } else {
        15
    }
}

/// The number that a run of hexadecimal digits stands for.
pub open spec fn hex_value(digits: Seq<char>) -> nat
    decreases digits.len(),
{
    if digits.len() == 0 {
        0
    } else {
        16 * hex_value(digits.drop_last()) + digit_value(digits.last())
    }
}

/// A digit stands for the number that it was made from, and is none of the
/// marks that set the parts of a key apart.
pub proof fn lemma_hex_digit(d: nat)
    requires
        d < 16,
    ensures
        digit_value(hex_digit(d)) == d,
        hex_digit(d) != '_',
        hex_digit(d) != '.',
        hex_digit(d) != '@',
{
}

/// The digits of a number stand for that number, and none of them is a mark
/// that sets the parts of a key apart.
pub proof fn lemma_upper_hex(n: nat)
    ensures
        hex_value(upper_hex(n)) == n,
        !upper_hex(n).contains('_'),
        !upper_hex(n).contains('.'),
        !upper_hex(n).contains('@'),
    decreases n,
{
    let text = upper_hex(n);
    if n < 16 {
        lemma_hex_digit(n);
        assert(text.drop_last() =~= Seq::<char>::empty());
        assert(text.last() == hex_digit(n));
        assert(hex_value(text.drop_last()) == 0);
        assert forall|c: char| text.contains(c) implies c == hex_digit(n) by {
            let j = text.index_of(c);
            assert(text[j] == c);
        }
    } else {
        lemma_upper_hex(n / 16);
        lemma_hex_digit(n % 16);
        let front = upper_hex(n / 16);
        assert(text.drop_last() =~= front);
        assert(text.last() == hex_digit(n % 16));
        assert forall|c: char| text.contains(c) implies front.contains(c) || c == hex_digit(
            n % 16,
        ) by {
            let j = text.index_of(c);
            assert(text[j] == c);
            if j < front.len() {
                assert(front[j] == c);
            }
        }
    }
}

/// Two texts that are cut at a mark which neither of the parts before it holds
/// are cut at the same place.
pub proof fn lemma_cut_at_mark(
    a: Seq<char>,
    b: Seq<char>,
    c: Seq<char>,
    d: Seq<char>,
    mark: char,
)
    requires
        a + seq![mark] + b == c + seq![mark] + d,
        !a.contains(mark),
        !c.contains(mark),
    ensures
        a == c,
        b == d,
{
    let left = a + seq![mark] + b;
    let right = c + seq![mark] + d;
    assert(left[a.len() as int] == mark);
    assert(right[c.len() as int] == mark);
    if a.len() < c.len() {
        assert(right[a.len() as int] == c[a.len() as int]);
        assert(c.contains(mark));
    }
    if c.len() < a.len() {
        assert(left[c.len() as int] == a[c.len() as int]);
        assert(a.contains(mark));
    }
    assert(a.len() == c.len());
    assert forall|j: int| 0 <= j < a.len() implies a[j] == c[j] by {
        assert(left[j] == a[j]);
        assert(right[j] == c[j]);
    }
    assert(a =~= c);
    assert(left.len() == right.len());
    assert forall|j: int| 0 <= j < b.len() implies b[j] == d[j] by {
        assert(left[a.len() + 1 + j] == b[j]);
        assert(right[c.len() + 1 + j] == d[j]);
    }
    assert(b =~= d);
}

/// Two addresses with the same key are the same address: no two entities
/// are filed under one key.
pub proof fn law_keys_tell_entities_apart(a: RawID, b: RawID)
    requires
        key_text(a) == key_text(b),
    ensures
        a == b,
{
    lemma_upper_hex(a.type_id as nat);
    lemma_upper_hex(a.instance_id as nat);
    lemma_upper_hex(a.version as nat);
    lemma_upper_hex(a.machine as nat);
    lemma_upper_hex(b.type_id as nat);
    lemma_upper_hex(b.instance_id as nat);
    lemma_upper_hex(b.version as nat);
    lemma_upper_hex(b.machine as nat);
    lemma_same_parts(
        upper_hex(a.type_id as nat),
        upper_hex(a.instance_id as nat),
        upper_hex(a.version as nat),
        upper_hex(a.machine as nat),
        upper_hex(b.type_id as nat),
        upper_hex(b.instance_id as nat),
        upper_hex(b.version as nat),
        upper_hex(b.machine as nat),
    );
}

/// Two texts of four parts, set apart by `_`, `.` and `@`, of which the
/// first three parts hold none of these marks, have the same parts where they
/// are the same text.
pub proof fn lemma_same_parts(
    a1: Seq<char>,
    a2: Seq<char>,
    a3: Seq<char>,
    a4: Seq<char>,
    b1: Seq<char>,
    b2: Seq<char>,
    b3: Seq<char>,
    b4: Seq<char>,
)
    requires
        a1 + seq!['_'] + a2 + seq!['.'] + a3 + seq!['@'] + a4 == b1 + seq!['_'] + b2 + seq!['.']
            + b3 + seq!['@'] + b4,
        !a1.contains('_'),
        !b1.contains('_'),
        !a2.contains('.'),
        !b2.contains('.'),
        !a3.contains('@'),
        !b3.contains('@'),
    ensures
        a1 == b1,
        a2 == b2,
        a3 == b3,
        a4 == b4,
{
    let a_end = a3 + seq!['@'] + a4;
    let b_end = b3 + seq!['@'] + b4;
    let a_rest = a2 + seq!['.'] + a_end;
    let b_rest = b2 + seq!['.'] + b_end;
    assert(a1 + seq!['_'] + a2 + seq!['.'] + a3 + seq!['@'] + a4 =~= a1 + seq!['_'] + a_rest);
    assert(b1 + seq!['_'] + b2 + seq!['.'] + b3 + seq!['@'] + b4 =~= b1 + seq!['_'] + b_rest);
    lemma_cut_at_mark(a1, a_rest, b1, b_rest, '_');
    lemma_cut_at_mark(a2, a_end, b2, b_end, '.');
    lemma_cut_at_mark(a3, a4, b3, b4, '@');
}

/// The text of one hexadecimal digit.
pub fn hex_digit_text(d: u64) -> (text: &'static str)
    requires
        d < 16,
    ensures
        text@ == seq![hex_digit(d as nat)],
{
    proof {
        reveal_strlit("0");
        reveal_strlit("1");
        reveal_strlit("2");
        reveal_strlit("3");
        reveal_strlit("4");
        reveal_strlit("5");
        reveal_strlit("6");
        reveal_strlit("7");
        reveal_strlit("8");
        reveal_strlit("9");
        reveal_strlit("A");
        reveal_strlit("B");
        reveal_strlit("C");
        reveal_strlit("D");
        reveal_strlit("E");
        reveal_strlit("F");
    }
    let text = if d == 0 {
        "0"
    } else if d == 1 {
        "1"
    } else if d == 2 {
        "2"
    } else if d == 3 {
        "3"
    } else if d == 4 {
        "4"
    } else if d == 5 {
        "5"
    } else if d == 6 {
        "6"
    } else if d == 7 {
        "7"
    } else if d == 8 {
        "8"
    } else if d == 9 {
        "9"
    } else if d == 10 {
        "A"
    } else if d == 11 {
        "B"
    } else if d == 12 {
        "C"
    } else if d == 13 {
        "D"
    } else if d == 14 {
        "E"
    } else {
        "F"
    };
    assert(text@ =~= seq![hex_digit(d as nat)]);
    text
}

/// The digits of a number below the lowest are the digits of the number
/// without its lowest digit.
pub proof fn lemma_upper_hex_step(n: nat)
    requires
        n >= 16,
    ensures
        upper_hex(n) == upper_hex(n / 16) + seq![hex_digit(n % 16)],
{
    assert(upper_hex(n / 16).push(hex_digit(n % 16)) =~= upper_hex(n / 16) + seq![
        hex_digit(n % 16),
    ]);
}

/// Adds a number in upper-case hexadecimal digits to a text.
pub fn append_upper_hex(text: &mut String, n: u64)
    ensures
        final(text)@ == old(text)@ + upper_hex(n as nat),
{
    let mut digits: Vec<u64> = Vec::new();
    digits.push(n % 16);
    let mut rest: u64 = n / 16;
    // the digits taken so far, highest first, are the end of the number
    let ghost mut tail: Seq<char> = seq![hex_digit((n % 16) as nat)];
    proof {
        if n >= 16 {
            lemma_upper_hex_step(n as nat);
        }
    }
    while rest > 0
        invariant
            digits@.len() >= 1,
            tail.len() == digits@.len(),
            forall|j: int| 0 <= j < digits@.len() ==> digits@[j] < 16,
            forall|j: int|
                0 <= j < digits@.len() ==> tail[j] == hex_digit(
                    digits@[digits@.len() - 1 - j] as nat,
                ),
            upper_hex(n as nat) == if rest > 0 {
                upper_hex(rest as nat) + tail
            } else {
                tail
            },
        decreases rest,
    {
        let d = rest % 16;
        proof {
            if rest >= 16 {
                lemma_upper_hex_step(rest as nat);
            }
            let longer = seq![hex_digit(d as nat)] + tail;
            if rest >= 16 {
                assert(upper_hex(rest as nat) + tail =~= upper_hex((rest / 16) as nat) + longer);
            } else {
                assert(upper_hex(rest as nat) + tail =~= longer);
            }
            tail = longer;
        }
        digits.push(d);
        rest = rest / 16;
    }
    let ghost start = text@;
    let mut i: usize = digits.len();
    while i > 0
        invariant
            i <= digits@.len(),
            tail.len() == digits@.len(),
            forall|j: int| 0 <= j < digits@.len() ==> digits@[j] < 16,
            forall|j: int|
                0 <= j < digits@.len() ==> tail[j] == hex_digit(
                    digits@[digits@.len() - 1 - j] as nat,
                ),
            text@ == start + tail.take(digits@.len() - i),
        decreases i,
    {
        i = i - 1;
        let ghost before = text@;
        text.append(hex_digit_text(digits[i]));
        proof {
            let done = digits@.len() - i;
            assert(tail.take(done) =~= tail.take(done - 1).push(tail[done - 1]));
            assert(text@ =~= start + tail.take(done));
        }
    }
    assert(tail.take(digits@.len() as int) =~= tail);
}

impl RawID {
    /// The text under which the presentation surface files what belongs to
    /// this entity.
    pub fn key(&self) -> (text: String)
        ensures
            text@ == key_text(*self),
    {
        proof {
            reveal_strlit("_");
            reveal_strlit(".");
            reveal_strlit("@");
        }
        let mut text = String::new();
        append_upper_hex(&mut text, self.type_id as u64);
        text.append("_");
        append_upper_hex(&mut text, self.instance_id as u64);
        text.append(".");
        append_upper_hex(&mut text, self.version as u64);
        text.append("@");
        append_upper_hex(&mut text, self.machine as u64);
        assert("_"@ =~= seq!['_']);
        assert("."@ =~= seq!['.']);
        assert("@"@ =~= seq!['@']);
        assert(text@ =~= key_text(*self));
        text
    }
}

} // verus!
