//! Plain-text forms of values: canonical decimal numbers, used by the
//! pagination cursors and by the JSON text form.

use vstd::prelude::*;
use vstd::string::{StrSliceExecFns, StringExecFns};

use crate::json::{JsonV, JsonValue};
use crate::version::hex_digit;

verus! {

/// The decimal digit character for a value below ten.
pub open spec fn dec_digit(d: int) -> char {
    if d == 0 {
        '0'
    } else if d == 1 {
        '1'
    } else if d == 2 {
        '2'
    } else if d == 3 {
        '3'
    } else if d == 4 {
        '4'
    } else if d == 5 {
        '5'
    } else if d == 6 {
        '6'
    } else if d == 7 {
        '7'
    } else if d == 8 {
        '8'
    } else {
        '9'
    }
}

/// The canonical decimal form of a nonnegative number: no sign, no
/// leading zeros.
pub open spec fn dec_string(n: int) -> Seq<char>
    decreases n,
{
    if n < 10 {
        seq![dec_digit(n)]
    } else {
        dec_string(n / 10).push(dec_digit(n % 10))
    }
}

/// Whether `c` is a decimal digit.
pub open spec fn is_dec_digit(c: char) -> bool {
    '0' <= c <= '9'
}

/// The value of a decimal digit character.
pub open spec fn digit_val(c: char) -> int {
    c as int - '0' as int
}

/// The number a digit string denotes.
pub open spec fn dec_val(s: Seq<char>) -> int
    decreases s.len(),
{
    if s.len() == 0 {
        0
    } else {
        dec_val(s.drop_last()) * 10 + digit_val(s.last())
    }
}

/// Whether `s` is the canonical decimal form of some number: nonempty,
/// all digits, and no leading zero.
pub open spec fn is_canonical_dec(s: Seq<char>) -> bool {
    &&& s.len() > 0
    &&& forall|i: int| 0 <= i < s.len() ==> is_dec_digit(#[trigger] s[i])
    &&& (s[0] != '0' || s.len() == 1)
}

fn dec_digit_exec(d: u64) -> (r: char)
    requires
        d < 10,
    ensures
        r == dec_digit(d as int),
{
    match d {
        0 => '0',
        1 => '1',
        2 => '2',
        3 => '3',
        4 => '4',
        5 => '5',
        6 => '6',
        7 => '7',
        8 => '8',
        _ => '9',
    }
}

/// Appends the canonical decimal form of `n`.
pub fn push_dec(out: &mut String, n: u64)
    ensures
        final(out)@ == old(out)@ + dec_string(n as int),
    decreases n,
{
    if n < 10 {
        out.push(dec_digit_exec(n));
    } else {
        push_dec(out, n / 10);
        out.push(dec_digit_exec(n % 10));
    }
}

/// The canonical decimal form of `n`.
pub fn format_dec(n: u64) -> (r: String)
    ensures
        r@ == dec_string(n as int),
{
    let mut out = String::new();
    push_dec(&mut out, n);
    proof {
        assert(out@ =~= dec_string(n as int));
    }
    out
}

/// The canonical decimal form really is canonical, and denotes the
/// number it was formed from.
pub proof fn lemma_dec_string_canonical(n: int)
    requires
        n >= 0,
    ensures
        is_canonical_dec(dec_string(n)),
        dec_val(dec_string(n)) == n,
        dec_string(n)[0] == '0' <==> n == 0,
    decreases n,
{
    if n < 10 {
        assert(dec_string(n) == seq![dec_digit(n)]);
        assert(dec_string(n).drop_last() =~= Seq::<char>::empty());
        assert(dec_val(Seq::<char>::empty()) == 0);
    } else {
        lemma_dec_string_canonical(n / 10);
        let s = dec_string(n);
        let q = dec_string(n / 10);
        assert(s == q.push(dec_digit(n % 10)));
        assert(s.drop_last() =~= q);
        assert forall|i: int| 0 <= i < s.len() implies is_dec_digit(#[trigger] s[i]) by {
            if i < q.len() {
                assert(s[i] == q[i]);
            }
        }
        assert(s[0] == q[0]);
    }
}

/// A prefix of a digit string denotes no more than the whole string.
pub proof fn lemma_dec_val_prefix(s: Seq<char>, i: int)
    requires
        0 <= i <= s.len(),
        forall|j: int| 0 <= j < s.len() ==> is_dec_digit(#[trigger] s[j]),
    ensures
        dec_val(s.subrange(0, i)) <= dec_val(s),
        dec_val(s) >= 0,
    decreases s.len(),
{
    if s.len() == 0 {
        assert(s.subrange(0, i) =~= s);
    } else {
        let q = s.drop_last();
        assert(forall|j: int| 0 <= j < q.len() ==> is_dec_digit(#[trigger] q[j]));
        if i == s.len() {
            assert(s.subrange(0, i) =~= s);
            lemma_dec_val_prefix(q, q.len() as int);
        } else {
            assert(s.subrange(0, i) =~= q.subrange(0, i));
            lemma_dec_val_prefix(q, i);
        }
    }
}

/// The number a canonical decimal string denotes, when it fits.
#[verifier::loop_isolation(false)]
pub fn parse_dec(s: &str) -> (r: Option<u64>)
    ensures
        (match r {
            Some(v) => is_canonical_dec(s@) && dec_val(s@) == v as int,
            None => !is_canonical_dec(s@) || dec_val(s@) > u64::MAX,
        }),
{
    let n = s.unicode_len();
    if n == 0 {
        return None;
    }
    if n > 1 && s.get_char(0) == '0' {
        return None;
    }
    let mut acc: u64 = 0;
    let mut i: usize = 0;
    proof {
        assert(s@.subrange(0, 0) =~= Seq::<char>::empty());
    }
    while i < n
        invariant
            i <= n,
            n == s@.len(),
            forall|j: int| 0 <= j < i ==> is_dec_digit(#[trigger] s@[j]),
            acc as int == dec_val(s@.subrange(0, i as int)),
        decreases n - i,
    {
        let c = s.get_char(i);
        let cv = c as u32;
        if cv < 48 || cv > 57 {
            proof {
                assert(!is_dec_digit(s@[i as int]));
            }
            return None;
        }
        let d = (cv - 48) as u64;
        proof {
            lemma_dec_val_snoc(s@, i as int);
        }
        if acc > (u64::MAX - d) / 10 {
            proof {
                assert(acc as int * 10 + d as int > u64::MAX) by (nonlinear_arith)
                    requires
                        acc as int > (u64::MAX - d as int) / 10,
                        0 <= d as int <= 9,
                        acc as int >= 0,
                ;
                if forall|j: int| 0 <= j < s@.len() ==> is_dec_digit(#[trigger] s@[j]) {
                    lemma_dec_val_prefix(s@, i as int + 1);
                }
            }
            return None;
        }
        proof {
            assert(acc as int * 10 + d as int <= u64::MAX) by (nonlinear_arith)
                requires
                    acc as int <= (u64::MAX - d as int) / 10,
                    0 <= d as int <= 9,
                    acc as int >= 0,
            ;
        }
        acc = acc * 10 + d;
        i = i + 1;
    }
    proof {
        assert(s@.subrange(0, n as int) =~= s@);
    }
    Some(acc)
}

/// The value of a digit string grown by one digit.
pub proof fn lemma_dec_val_snoc(s: Seq<char>, i: int)
    requires
        0 <= i < s.len(),
    ensures
        dec_val(s.subrange(0, i + 1)) == dec_val(s.subrange(0, i)) * 10 + digit_val(s[i]),
{
    let t = s.subrange(0, i + 1);
    assert(t.drop_last() =~= s.subrange(0, i));
    assert(t.last() == s[i]);
}

/// The JSON text escape of one character inside a string literal:
/// quote, backslash and the named control characters get their short
/// escapes, other control characters a four-digit hexadecimal escape,
/// everything else stands as itself.
pub open spec fn esc_char(c: char) -> Seq<char> {
    if c == '"' {
        seq!['\\', '"']
    } else if c == '\\' {
        seq!['\\', '\\']
    } else if c == '\n' {
        seq!['\\', 'n']
    } else if c == '\r' {
        seq!['\\', 'r']
    } else if c == '\t' {
        seq!['\\', 't']
    } else if c == '\u{8}' {
        seq!['\\', 'b']
    } else if c == '\u{c}' {
        seq!['\\', 'f']
    } else if (c as int) < 32 {
        seq!['\\', 'u', '0', '0', hex_digit((c as int) / 16), hex_digit((c as int) % 16)]
    } else {
        seq![c]
    }
}

/// The JSON text escape of a whole string body.
pub open spec fn json_escape(s: Seq<char>) -> Seq<char>
    decreases s.len(),
{
    if s.len() == 0 {
        Seq::empty()
    } else {
        esc_char(s[0]) + json_escape(s.drop_first())
    }
}

/// The text of an integer: a minus sign for negatives, then the
/// canonical decimal form of the magnitude.
pub open spec fn int_text(i: int) -> Seq<char> {
    if i < 0 {
        seq!['-'] + dec_string(-i)
    } else {
        dec_string(i)
    }
}

/// The compact JSON text of a wire value: no whitespace, object
/// entries in their stored order.
pub open spec fn json_text(v: JsonV) -> Seq<char>
    decreases v,
{
    match v {
        JsonV::Null => "null"@,
        JsonV::Bool(b) => if b {
            "true"@
        } else {
            "false"@
        },
        JsonV::Int(i) => int_text(i),
        JsonV::Str(s) => seq!['"'] + json_escape(s) + seq!['"'],
        JsonV::Arr(a) => seq!['['] + arr_text(a) + seq![']'],
        JsonV::Obj(o) => seq!['{'] + obj_text(o) + seq!['}'],
    }
}

/// The comma-separated texts of array elements.
pub open spec fn arr_text(a: Seq<JsonV>) -> Seq<char>
    decreases a,
{
    if a.len() == 0 {
        Seq::empty()
    } else if a.len() == 1 {
        json_text(a[0])
    } else {
        json_text(a[0]) + seq![','] + arr_text(a.drop_first())
    }
}

/// The text of one object entry: the quoted key, a colon, the value.
pub open spec fn entry_text(e: (Seq<char>, JsonV)) -> Seq<char>
    decreases e,
{
    seq!['"'] + json_escape(e.0) + seq!['"', ':'] + json_text(e.1)
}

/// The comma-separated texts of object entries.
pub open spec fn obj_text(o: Seq<(Seq<char>, JsonV)>) -> Seq<char>
    decreases o,
{
    if o.len() == 0 {
        Seq::empty()
    } else if o.len() == 1 {
        entry_text(o[0])
    } else {
        entry_text(o[0]) + seq![','] + obj_text(o.drop_first())
    }
}

proof fn lemma_json_escape_push(s: Seq<char>, c: char)
    ensures
        json_escape(s.push(c)) == json_escape(s) + esc_char(c),
    decreases s.len(),
{
    if s.len() == 0 {
        assert(s.push(c).drop_first() =~= Seq::<char>::empty());
        assert(json_escape(Seq::<char>::empty()) =~= Seq::<char>::empty());
        assert(json_escape(s.push(c)) =~= json_escape(s) + esc_char(c));
    } else {
        assert(s.push(c).drop_first() =~= s.drop_first().push(c));
        lemma_json_escape_push(s.drop_first(), c);
        assert(s.push(c)[0] == s[0]);
        assert(json_escape(s.push(c)) =~= json_escape(s) + esc_char(c));
    }
}

proof fn lemma_arr_text_push(a: Seq<JsonV>, x: JsonV)
    requires
        a.len() >= 1,
    ensures
        arr_text(a.push(x)) == arr_text(a) + seq![','] + json_text(x),
    decreases a.len(),
{
    if a.len() == 1 {
        assert(a.push(x).drop_first() =~= seq![x]);
        assert(arr_text(seq![x]) == json_text(x));
        assert(a.push(x)[0] == a[0]);
        assert(arr_text(a.push(x)) =~= arr_text(a) + seq![','] + json_text(x));
    } else {
        assert(a.push(x).drop_first() =~= a.drop_first().push(x));
        lemma_arr_text_push(a.drop_first(), x);
        assert(a.push(x)[0] == a[0]);
        assert(arr_text(a.push(x)) =~= arr_text(a) + seq![','] + json_text(x));
    }
}

proof fn lemma_obj_text_push(o: Seq<(Seq<char>, JsonV)>, e: (Seq<char>, JsonV))
    requires
        o.len() >= 1,
    ensures
        obj_text(o.push(e)) == obj_text(o) + seq![','] + entry_text(e),
    decreases o.len(),
{
    if o.len() == 1 {
        assert(o.push(e).drop_first() =~= seq![e]);
        assert(obj_text(seq![e]) == entry_text(e));
        assert(o.push(e)[0] == o[0]);
        assert(obj_text(o.push(e)) =~= obj_text(o) + seq![','] + entry_text(e));
    } else {
        assert(o.push(e).drop_first() =~= o.drop_first().push(e));
        lemma_obj_text_push(o.drop_first(), e);
        assert(o.push(e)[0] == o[0]);
        assert(obj_text(o.push(e)) =~= obj_text(o) + seq![','] + entry_text(e));
    }
}

fn push_escaped_char(out: &mut String, c: char)
    ensures
        final(out)@ == old(out)@ + esc_char(c),
{
    if c == '"' {
        out.append("\\\"");
        proof {
            reveal_strlit("\\\"");
            assert(out@ =~= old(out)@ + esc_char(c));
        }
    } else if c == '\\' {
        out.append("\\\\");
        proof {
            reveal_strlit("\\\\");
            assert(out@ =~= old(out)@ + esc_char(c));
        }
    } else if c == '\n' {
        out.append("\\n");
        proof {
            reveal_strlit("\\n");
            assert(out@ =~= old(out)@ + esc_char(c));
        }
    } else if c == '\r' {
        out.append("\\r");
        proof {
            reveal_strlit("\\r");
            assert(out@ =~= old(out)@ + esc_char(c));
        }
    } else if c == '\t' {
        out.append("\\t");
        proof {
            reveal_strlit("\\t");
            assert(out@ =~= old(out)@ + esc_char(c));
        }
    } else if c == '\u{8}' {
        out.append("\\b");
        proof {
            reveal_strlit("\\b");
            assert(out@ =~= old(out)@ + esc_char(c));
        }
    } else if c == '\u{c}' {
        out.append("\\f");
        proof {
            reveal_strlit("\\f");
            assert(out@ =~= old(out)@ + esc_char(c));
        }
    } else if (c as u32) < 32 {
        out.append("\\u00");
        let hi = ((c as u32) / 16) as u8;
        let lo = ((c as u32) % 16) as u8;
        out.push(crate::version::hex_digit_exec(hi));
        out.push(crate::version::hex_digit_exec(lo));
        proof {
            reveal_strlit("\\u00");
            assert(out@ =~= old(out)@ + esc_char(c));
        }
    } else {
        out.push(c);
        proof {
            assert(out@ =~= old(out)@ + esc_char(c));
        }
    }
}

#[verifier::loop_isolation(false)]
fn push_escaped(out: &mut String, s: &str)
    ensures
        final(out)@ == old(out)@ + json_escape(s@),
{
    let n = s.unicode_len();
    let mut i: usize = 0;
    proof {
        assert(json_escape(s@.subrange(0, 0)) =~= Seq::<char>::empty());
        assert(out@ =~= old(out)@ + json_escape(s@.subrange(0, 0)));
    }
    while i < n
        invariant
            i <= n,
            n == s@.len(),
            out@ == old(out)@ + json_escape(s@.subrange(0, i as int)),
        decreases n - i,
    {
        let c = s.get_char(i);
        proof {
            lemma_json_escape_push(s@.subrange(0, i as int), c);
            assert(s@.subrange(0, i as int + 1) =~= s@.subrange(0, i as int).push(c));
        }
        push_escaped_char(out, c);
        i = i + 1;
    }
    proof {
        assert(s@.subrange(0, n as int) =~= s@);
    }
}

/// Appends the compact JSON text of a wire value.
#[verifier::loop_isolation(false)]
#[verifier::rlimit(100)]
pub fn push_json(out: &mut String, v: &JsonValue)
    ensures
        final(out)@ == old(out)@ + json_text(v@),
    decreases v,
{
    match v {
        JsonValue::Null => {
            out.append("null");
        },
        JsonValue::Bool(b) => {
            if *b {
                out.append("true");
            } else {
                out.append("false");
            }
        },
        JsonValue::Int(i) => {
            if *i < 0 {
                out.push('-');
                let wide: i128 = -(*i as i128);
                push_dec(out, wide as u64);
                proof {
                    assert(out@ =~= old(out)@ + int_text(*i as int));
                }
            } else {
                push_dec(out, *i as u64);
            }
        },
        JsonValue::Str(s) => {
            out.push('"');
            push_escaped(out, s.as_str());
            out.push('"');
            proof {
                assert(out@ =~= old(out)@ + json_text(v@));
            }
        },
        JsonValue::Arr(a) => {
            out.push('[');
            let ghost base = out@;
            let mut i: usize = 0;
            proof {
                crate::json::lemma_arr_view(a@);
            }
            while i < a.len()
                invariant
                    i <= a@.len(),
                    out@ == base + arr_text(crate::json::arr_view(a@).subrange(0, i as int)),
                decreases a@.len() - i,
            {
                let ghost prefix = crate::json::arr_view(a@).subrange(0, i as int);
                if i > 0 {
                    out.push(',');
                }
                proof {
                    assert(decreases_to!(*v => *a));
                    assert(decreases_to!(*a => a@[i as int]));
                    if i > 0 {
                        lemma_arr_text_push(prefix, crate::json::arr_view(a@)[i as int]);
                    }
                    assert(crate::json::arr_view(a@).subrange(0, i as int + 1) =~= prefix.push(
                        crate::json::arr_view(a@)[i as int],
                    ));
                }
                push_json(out, &a[i]);
                proof {
                    if i == 0 {
                        assert(prefix =~= Seq::<JsonV>::empty());
                        assert(arr_text(prefix.push(crate::json::arr_view(a@)[0])) == json_text(
                            crate::json::arr_view(a@)[0],
                        ));
                    }
                }
                i = i + 1;
            }
            out.push(']');
            proof {
                assert(crate::json::arr_view(a@).subrange(
                    0,
                    a@.len() as int,
                ) =~= crate::json::arr_view(a@));
                assert(out@ =~= old(out)@ + json_text(v@));
            }
        },
        JsonValue::Obj(o) => {
            out.push('{');
            let ghost base = out@;
            let mut i: usize = 0;
            proof {
                crate::json::lemma_obj_view(o@);
            }
            while i < o.len()
                invariant
                    i <= o@.len(),
                    out@ == base + obj_text(crate::json::obj_view(o@).subrange(0, i as int)),
                decreases o@.len() - i,
            {
                let ghost prefix = crate::json::obj_view(o@).subrange(0, i as int);
                let ghost e = crate::json::obj_view(o@)[i as int];
                if i > 0 {
                    out.push(',');
                }
                proof {
                    if i > 0 {
                        lemma_obj_text_push(prefix, e);
                    }
                    assert(crate::json::obj_view(o@).subrange(0, i as int + 1) =~= prefix.push(e));
                }
                let entry = &o[i];
                out.push('"');
                push_escaped(out, entry.0.as_str());
                out.push('"');
                out.push(':');
                proof {
                    assert(decreases_to!(*v => *o));
                    assert(decreases_to!(*o => o@[i as int]));
                    assert(decreases_to!(o@[i as int] => o@[i as int].1));
                }
                push_json(out, &entry.1);
                proof {
                    if i == 0 {
                        assert(prefix =~= Seq::<(Seq<char>, JsonV)>::empty());
                        assert(obj_text(prefix.push(e)) == entry_text(e));
                    }
                }
                i = i + 1;
            }
            out.push('}');
            proof {
                assert(crate::json::obj_view(o@).subrange(
                    0,
                    o@.len() as int,
                ) =~= crate::json::obj_view(o@));
                assert(out@ =~= old(out)@ + json_text(v@));
            }
        },
    }
}

/// The compact JSON text of a wire value.
pub fn to_json_string(v: &JsonValue) -> (r: String)
    ensures
        r@ == json_text(v@),
{
    let mut out = String::new();
    push_json(&mut out, v);
    proof {
        assert(out@ =~= json_text(v@));
    }
    out
}

} // verus!
