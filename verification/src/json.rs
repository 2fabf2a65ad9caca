//! The JSON value model and its verified text codec: a printer for the
//! single-document exchange with external generator processes, a parser for
//! what they send back, and the proof that parsing a printed document
//! yields it back unchanged.
//!
//! The printed text is plain JSON: objects, arrays, strings with the
//! standard escapes, unsigned integers, booleans and null, with no added
//! whitespace.  The parser additionally accepts insignificant whitespace
//! between tokens and surrogate-pair escapes inside strings.  Numbers are
//! unsigned integers, the only numbers the wire documents carry.

use vstd::prelude::*;

use crate::strutil::{spec_dec, spec_is_space};
use crate::stdx::{push_char, char_from_u32};

verus! {

/// A JSON document value.
#[derive(Debug, PartialEq)]
pub enum Json {
    Null,
    Bool(bool),
    /// An unsigned integer; the wire documents carry no other numbers.
    Num(u64),
    Text(String),
    Arr(Vec<Json>),
    /// An object as an ordered list of key-value pairs.
    Obj(Vec<(String, Json)>),
}

/// Mathematical model of a JSON value.
#[verifier::ext_equal]
pub enum SpecJson {
    Null,
    Bool(bool),
    Num(u64),
    Text(Seq<char>),
    Arr(Seq<SpecJson>),
    Obj(Seq<(Seq<char>, SpecJson)>),
}

/// The model of a JSON value.
pub open spec fn json_view(j: Json) -> SpecJson
    decreases j,
{
    match j {
        Json::Null => SpecJson::Null,
        Json::Bool(b) => SpecJson::Bool(b),
        Json::Num(n) => SpecJson::Num(n),
        Json::Text(s) => SpecJson::Text(s@),
        Json::Arr(elems) => SpecJson::Arr(jsons_view(elems@)),
        Json::Obj(pairs) => SpecJson::Obj(jpairs_view(pairs@)),
    }
}

/// The models of a sequence of JSON values, element by element.
pub open spec fn jsons_view(v: Seq<Json>) -> Seq<SpecJson>
    decreases v,
{
    if v.len() == 0 {
        Seq::empty()
    } else {
        seq![json_view(v[0])] + jsons_view(v.drop_first())
    }
}

/// The models of a sequence of key-value pairs, pair by pair.
pub open spec fn jpairs_view(v: Seq<(String, Json)>) -> Seq<(Seq<char>, SpecJson)>
    decreases v,
{
    if v.len() == 0 {
        Seq::empty()
    } else {
        seq![(v[0].0@, json_view(v[0].1))] + jpairs_view(v.drop_first())
    }
}

/// `jsons_view` maps `json_view` over the sequence, element by element.
pub proof fn lemma_jsons_view(v: Seq<Json>)
    ensures
        jsons_view(v).len() == v.len(),
        forall|i: int| 0 <= i < v.len() ==> #[trigger] jsons_view(v)[i] == json_view(v[i]),
    decreases v.len(),
{
    if v.len() > 0 {
        lemma_jsons_view(v.drop_first());
    }
}

/// `jpairs_view` maps the pair model over the sequence, pair by pair.
pub proof fn lemma_jpairs_view(v: Seq<(String, Json)>)
    ensures
        jpairs_view(v).len() == v.len(),
        forall|i: int|
            0 <= i < v.len() ==> #[trigger] jpairs_view(v)[i] == (v[i].0@, json_view(v[i].1)),
    decreases v.len(),
{
    if v.len() > 0 {
        lemma_jpairs_view(v.drop_first());
    }
}

impl DeepView for Json {
    type V = SpecJson;

    open spec fn deep_view(&self) -> SpecJson {
        json_view(*self)
    }
}

impl View for Json {
    type V = SpecJson;

    open spec fn view(&self) -> SpecJson {
        json_view(*self)
    }
}

/// The character for a hexadecimal digit value, lower case.
pub open spec fn spec_hex_char(d: int) -> char {
    if d < 10 {
        ((d + 48) as u8) as char
    } else {
        ((d + 87) as u8) as char
    }
}

/// The escape of one character inside a JSON string: quotes and backslashes
/// are escaped, control characters become four-digit hexadecimal escapes,
/// everything else stands for itself.
pub open spec fn spec_escape_char(c: char) -> Seq<char> {
    if c == '"' {
        seq!['\\', '"']
    } else if c == '\\' {
        seq!['\\', '\\']
    } else if (c as u32) < 32 {
        seq!['\\', 'u', '0', '0', spec_hex_char((c as u32) as int / 16),
            spec_hex_char((c as u32) as int % 16)]
    } else {
        seq![c]
    }
}

/// The escape of a whole string body, character by character.
pub open spec fn spec_escape(s: Seq<char>) -> Seq<char>
    decreases s,
{
    if s.len() == 0 {
        Seq::empty()
    } else {
        spec_escape_char(s[0]) + spec_escape(s.drop_first())
    }
}

/// Escaping one more character appends its escape.
pub proof fn lemma_escape_push(s: Seq<char>, c: char)
    ensures
        spec_escape(s.push(c)) == spec_escape(s) + spec_escape_char(c),
    decreases s.len(),
{
    if s.len() == 0 {
        assert(s.push(c).drop_first() =~= Seq::<char>::empty());
        assert(s.push(c)[0] == c);
        assert(spec_escape(Seq::<char>::empty()) == Seq::<char>::empty());
        assert(spec_escape(s.push(c)) =~= spec_escape(s) + spec_escape_char(c));
    } else {
        lemma_escape_push(s.drop_first(), c);
        assert(s.push(c).drop_first() =~= s.drop_first().push(c));
        assert(s.push(c)[0] == s[0]);
        assert(spec_escape(s.push(c)) == spec_escape_char(s[0]) + spec_escape(
            s.drop_first().push(c),
        ));
        assert(spec_escape(s.push(c)) == spec_escape_char(s[0]) + (spec_escape(s.drop_first())
            + spec_escape_char(c)));
        assert(spec_escape(s.push(c)) =~= spec_escape(s) + spec_escape_char(c));
    }
}

/// The printed text of a JSON value: plain JSON with no added whitespace.
pub open spec fn spec_print(j: SpecJson) -> Seq<char>
    decreases j,
{
    match j {
        SpecJson::Null => seq!['n', 'u', 'l', 'l'],
        SpecJson::Bool(b) => if b {
            seq!['t', 'r', 'u', 'e']
        } else {
            seq!['f', 'a', 'l', 's', 'e']
        },
        SpecJson::Num(n) => spec_dec(n as nat),
        SpecJson::Text(s) => seq!['"'] + spec_escape(s) + seq!['"'],
        SpecJson::Arr(elems) => seq!['['] + spec_print_elems(elems) + seq![']'],
        SpecJson::Obj(pairs) => seq!['{'] + spec_print_pairs(pairs) + seq!['}'],
    }
}

/// The printed elements of an array, comma separated.
pub open spec fn spec_print_elems(elems: Seq<SpecJson>) -> Seq<char>
    decreases elems,
{
    if elems.len() == 0 {
        Seq::empty()
    } else {
        spec_print(elems[0]) + spec_print_elems_rest(elems.drop_first())
    }
}

/// The printed later elements of an array, each preceded by a comma.
pub open spec fn spec_print_elems_rest(elems: Seq<SpecJson>) -> Seq<char>
    decreases elems,
{
    if elems.len() == 0 {
        Seq::empty()
    } else {
        seq![','] + spec_print(elems[0]) + spec_print_elems_rest(elems.drop_first())
    }
}

/// The printed pairs of an object, comma separated.
pub open spec fn spec_print_pairs(pairs: Seq<(Seq<char>, SpecJson)>) -> Seq<char>
    decreases pairs,
{
    if pairs.len() == 0 {
        Seq::empty()
    } else {
        spec_print_pair(pairs[0]) + spec_print_pairs_rest(pairs.drop_first())
    }
}

/// The printed later pairs of an object, each preceded by a comma.
pub open spec fn spec_print_pairs_rest(pairs: Seq<(Seq<char>, SpecJson)>) -> Seq<char>
    decreases pairs,
{
    if pairs.len() == 0 {
        Seq::empty()
    } else {
        seq![','] + spec_print_pair(pairs[0]) + spec_print_pairs_rest(pairs.drop_first())
    }
}

/// One printed key-value pair.
pub open spec fn spec_print_pair(p: (Seq<char>, SpecJson)) -> Seq<char>
    decreases p,
{
    seq!['"'] + spec_escape(p.0) + seq!['"', ':'] + spec_print(p.1)
}

/// Printing one more element appends a comma and its text.
pub proof fn lemma_print_elems_rest_push(elems: Seq<SpecJson>, x: SpecJson)
    ensures
        spec_print_elems_rest(elems.push(x)) == spec_print_elems_rest(elems) + seq![',']
            + spec_print(x),
    decreases elems.len(),
{
    if elems.len() == 0 {
        assert(elems.push(x).drop_first() =~= Seq::<SpecJson>::empty());
        assert(elems.push(x)[0] == x);
        assert(spec_print_elems_rest(Seq::<SpecJson>::empty()) == Seq::<char>::empty());
        assert(spec_print_elems_rest(elems.push(x)) =~= spec_print_elems_rest(elems) + seq![',']
            + spec_print(x));
    } else {
        lemma_print_elems_rest_push(elems.drop_first(), x);
        assert(elems.push(x).drop_first() =~= elems.drop_first().push(x));
        assert(elems.push(x)[0] == elems[0]);
        assert(spec_print_elems_rest(elems.push(x)) == seq![','] + spec_print(elems[0])
            + spec_print_elems_rest(elems.drop_first().push(x)));
        assert(spec_print_elems_rest(elems.drop_first().push(x)) == spec_print_elems_rest(
            elems.drop_first(),
        ) + seq![','] + spec_print(x));
        assert(spec_print_elems_rest(elems.push(x)) =~= spec_print_elems_rest(elems) + seq![',']
            + spec_print(x));
    }
}

/// Printing an array of one more element appends either its text alone or a
/// comma and its text.
pub proof fn lemma_print_elems_push(elems: Seq<SpecJson>, x: SpecJson)
    ensures
        elems.len() == 0 ==> spec_print_elems(elems.push(x)) == spec_print(x),
        elems.len() > 0 ==> spec_print_elems(elems.push(x)) == spec_print_elems(elems)
            + seq![','] + spec_print(x),
{
    if elems.len() == 0 {
        assert(elems.push(x).drop_first() =~= Seq::<SpecJson>::empty());
        assert(elems.push(x)[0] == x);
        assert(spec_print_elems_rest(Seq::<SpecJson>::empty()) == Seq::<char>::empty());
        assert(spec_print_elems(elems.push(x)) =~= spec_print(x));
    } else {
        lemma_print_elems_rest_push(elems.drop_first(), x);
        assert(elems.push(x).drop_first() =~= elems.drop_first().push(x));
        assert(elems.push(x)[0] == elems[0]);
        assert(spec_print_elems(elems.push(x)) =~= spec_print_elems(elems) + seq![',']
            + spec_print(x));
    }
}

/// Printing one more pair appends a comma and its text.
pub proof fn lemma_print_pairs_rest_push(pairs: Seq<(Seq<char>, SpecJson)>, p: (Seq<char>,
    SpecJson))
    ensures
        spec_print_pairs_rest(pairs.push(p)) == spec_print_pairs_rest(pairs) + seq![',']
            + spec_print_pair(p),
    decreases pairs.len(),
{
    if pairs.len() == 0 {
        assert(pairs.push(p).drop_first() =~= Seq::<(Seq<char>, SpecJson)>::empty());
        assert(pairs.push(p)[0] == p);
        assert(spec_print_pairs_rest(Seq::<(Seq<char>, SpecJson)>::empty())
            == Seq::<char>::empty());
        assert(spec_print_pairs_rest(pairs.push(p)) =~= spec_print_pairs_rest(pairs) + seq![',']
            + spec_print_pair(p));
    } else {
        lemma_print_pairs_rest_push(pairs.drop_first(), p);
        assert(pairs.push(p).drop_first() =~= pairs.drop_first().push(p));
        assert(pairs.push(p)[0] == pairs[0]);
        assert(spec_print_pairs_rest(pairs.push(p)) == seq![','] + spec_print_pair(pairs[0])
            + spec_print_pairs_rest(pairs.drop_first().push(p)));
        assert(spec_print_pairs_rest(pairs.drop_first().push(p)) == spec_print_pairs_rest(
            pairs.drop_first(),
        ) + seq![','] + spec_print_pair(p));
        assert(spec_print_pairs_rest(pairs.push(p)) =~= spec_print_pairs_rest(pairs) + seq![',']
            + spec_print_pair(p));
    }
}

/// Printing an object of one more pair appends either its text alone or a
/// comma and its text.
pub proof fn lemma_print_pairs_push(pairs: Seq<(Seq<char>, SpecJson)>, p: (Seq<char>, SpecJson))
    ensures
        pairs.len() == 0 ==> spec_print_pairs(pairs.push(p)) == spec_print_pair(p),
        pairs.len() > 0 ==> spec_print_pairs(pairs.push(p)) == spec_print_pairs(pairs)
            + seq![','] + spec_print_pair(p),
{
    if pairs.len() == 0 {
        assert(pairs.push(p).drop_first() =~= Seq::<(Seq<char>, SpecJson)>::empty());
        assert(pairs.push(p)[0] == p);
        assert(spec_print_pairs_rest(Seq::<(Seq<char>, SpecJson)>::empty())
            == Seq::<char>::empty());
        assert(spec_print_pairs(pairs.push(p)) =~= spec_print_pair(p));
    } else {
        lemma_print_pairs_rest_push(pairs.drop_first(), p);
        assert(pairs.push(p).drop_first() =~= pairs.drop_first().push(p));
        assert(pairs.push(p)[0] == pairs[0]);
        assert(spec_print_pairs(pairs.push(p)) =~= spec_print_pairs(pairs) + seq![',']
            + spec_print_pair(p));
    }
}

/// Writes the escape of one character onto the end of the output.
pub fn write_escape_char(out: &mut String, c: char)
    ensures
        final(out)@ == old(out)@ + spec_escape_char(c),
{
    if c == '"' {
        push_char(out, '\\');
        push_char(out, '"');
        proof {
            assert(out@ =~= old(out)@ + spec_escape_char(c));
        }
    } else if c == '\\' {
        push_char(out, '\\');
        push_char(out, '\\');
        proof {
            assert(out@ =~= old(out)@ + spec_escape_char(c));
        }
    } else if (c as u32) < 32 {
        push_char(out, '\\');
        push_char(out, 'u');
        push_char(out, '0');
        push_char(out, '0');
        let hi: u32 = (c as u32) / 16;
        let lo: u32 = (c as u32) % 16;
        let hc: u8 = if hi < 10 {
            (hi as u8) + 48
        } else {
            (hi as u8) + 87
        };
        let lc: u8 = if lo < 10 {
            (lo as u8) + 48
        } else {
            (lo as u8) + 87
        };
        push_char(out, hc as char);
        push_char(out, lc as char);
        proof {
            assert(out@ =~= old(out)@ + spec_escape_char(c));
        }
    } else {
        push_char(out, c);
        proof {
            assert(out@ =~= old(out)@ + spec_escape_char(c));
        }
    }
}

/// Writes the escaped body of a string onto the end of the output.
#[verifier::loop_isolation(false)]
pub fn write_escaped(out: &mut String, s: &str)
    ensures
        final(out)@ == old(out)@ + spec_escape(s@),
{
    let n: usize = s.unicode_len();
    let mut i: usize = 0;
    proof {
        assert(s@.take(0) =~= Seq::<char>::empty());
        assert(out@ =~= old(out)@ + spec_escape(s@.take(0)));
    }
    while i < n
        invariant
            0 <= i <= n,
            out@ == old(out)@ + spec_escape(s@.take(i as int)),
        decreases n - i,
    {
        let c = s.get_char(i);
        write_escape_char(out, c);
        proof {
            lemma_escape_push(s@.take(i as int), c);
            assert(s@.take(i + 1) =~= s@.take(i as int).push(c));
        }
        i = i + 1;
    }
    proof {
        assert(s@.take(n as int) =~= s@);
    }
}

/// Writes the printed text of a JSON value onto the end of the output.
#[verifier::loop_isolation(false)]
#[verifier::rlimit(50)]
pub fn write_json(out: &mut String, j: &Json)
    ensures
        final(out)@ == old(out)@ + spec_print(j@),
    decreases j,
{
    match j {
        Json::Null => {
            push_char(out, 'n');
            push_char(out, 'u');
            push_char(out, 'l');
            push_char(out, 'l');
            proof {
                assert(out@ =~= old(out)@ + spec_print(j@));
            }
        },
        Json::Bool(b) => {
            if *b {
                push_char(out, 't');
                push_char(out, 'r');
                push_char(out, 'u');
                push_char(out, 'e');
            } else {
                push_char(out, 'f');
                push_char(out, 'a');
                push_char(out, 'l');
                push_char(out, 's');
                push_char(out, 'e');
            }
            proof {
                assert(out@ =~= old(out)@ + spec_print(j@));
            }
        },
        Json::Num(n) => {
            crate::strutil::push_dec(out, *n);
        },
        Json::Text(s) => {
            push_char(out, '"');
            write_escaped(out, s.as_str());
            push_char(out, '"');
            proof {
                assert(out@ =~= old(out)@ + spec_print(j@));
            }
        },
        Json::Arr(elems) => {
            push_char(out, '[');
            proof {
                lemma_jsons_view(elems@);
            }
            let n: usize = elems.len();
            let mut i: usize = 0;
            proof {
                assert(jsons_view(elems@).take(0) =~= Seq::<SpecJson>::empty());
            }
            while i < n
                invariant
                    0 <= i <= n,
                    out@ == old(out)@ + seq!['['] + spec_print_elems(
                        jsons_view(elems@).take(i as int),
                    ),
                decreases n - i,
            {
                if i > 0 {
                    push_char(out, ',');
                    proof {
                        assert(decreases_to!(*j => elems@[i as int]));
                    }
                    write_json(out, &elems[i]);
                } else {
                    proof {
                        assert(decreases_to!(*j => elems@[i as int]));
                    }
                    write_json(out, &elems[i]);
                }
                proof {
                    lemma_print_elems_push(jsons_view(elems@).take(i as int), jsons_view(
                        elems@,
                    )[i as int]);
                    assert(jsons_view(elems@).take(i + 1) =~= jsons_view(elems@).take(
                        i as int,
                    ).push(jsons_view(elems@)[i as int]));
                    assert(out@ =~= old(out)@ + seq!['['] + spec_print_elems(
                        jsons_view(elems@).take(i + 1),
                    ));
                }
                i = i + 1;
            }
            push_char(out, ']');
            proof {
                assert(jsons_view(elems@).take(n as int) =~= jsons_view(elems@));
                assert(out@ =~= old(out)@ + spec_print(j@));
            }
        },
        Json::Obj(pairs) => {
            push_char(out, '{');
            proof {
                lemma_jpairs_view(pairs@);
            }
            let n: usize = pairs.len();
            let mut i: usize = 0;
            proof {
                assert(jpairs_view(pairs@).take(0) =~= Seq::<(Seq<char>, SpecJson)>::empty());
            }
            while i < n
                invariant
                    0 <= i <= n,
                    out@ == old(out)@ + seq!['{'] + spec_print_pairs(
                        jpairs_view(pairs@).take(i as int),
                    ),
                decreases n - i,
            {
                if i > 0 {
                    push_char(out, ',');
                }
                push_char(out, '"');
                write_escaped(out, pairs[i].0.as_str());
                push_char(out, '"');
                push_char(out, ':');
                proof {
                    assert(decreases_to!(*j => pairs@[i as int].1));
                }
                write_json(out, &pairs[i].1);
                proof {
                    lemma_print_pairs_push(jpairs_view(pairs@).take(i as int), jpairs_view(
                        pairs@,
                    )[i as int]);
                    assert(jpairs_view(pairs@).take(i + 1) =~= jpairs_view(pairs@).take(
                        i as int,
                    ).push(jpairs_view(pairs@)[i as int]));
                    assert(out@ =~= old(out)@ + seq!['{'] + spec_print_pairs(
                        jpairs_view(pairs@).take(i + 1),
                    ));
                }
                i = i + 1;
            }
            push_char(out, '}');
            proof {
                assert(jpairs_view(pairs@).take(n as int) =~= jpairs_view(pairs@));
                assert(out@ =~= old(out)@ + spec_print(j@));
            }
        },
    }
}

/// The printed text of a JSON value as a fresh string.
pub fn print_json(j: &Json) -> (r: String)
    ensures
        r@ == spec_print(j@),
{
    let mut out = String::new();
    write_json(&mut out, j);
    proof {
        assert(out@ =~= spec_print(j@));
    }
    out
}

/// Whether a character is a decimal digit.
pub open spec fn spec_is_digit(c: char) -> bool {
    48 <= (c as u32) <= 57
}

/// The value of a decimal digit character.
pub open spec fn spec_digit_val(c: char) -> int {
    (c as u32) - 48
}

/// Whether a character is a hexadecimal digit.
pub open spec fn spec_is_hex(c: char) -> bool {
    spec_is_digit(c) || (97 <= (c as u32) <= 102) || (65 <= (c as u32) <= 70)
}

/// The value of a hexadecimal digit character.
pub open spec fn spec_hex_val(c: char) -> int {
    if spec_is_digit(c) {
        (c as u32) - 48
    } else if 97 <= (c as u32) <= 102 {
        (c as u32) - 87
    } else {
        (c as u32) - 55
    }
}

/// The input with leading insignificant whitespace removed.
pub open spec fn spec_skip_ws(s: Seq<char>) -> Seq<char>
    decreases s.len(),
{
    if s.len() > 0 && spec_is_space(s[0]) {
        spec_skip_ws(s.drop_first())
    } else {
        s
    }
}

/// Skipping whitespace never lengthens the input.
pub proof fn lemma_skip_ws_len(s: Seq<char>)
    ensures
        spec_skip_ws(s).len() <= s.len(),
    decreases s.len(),
{
    if s.len() > 0 && spec_is_space(s[0]) {
        lemma_skip_ws_len(s.drop_first());
    }
}

/// The number of leading decimal digits.
pub open spec fn spec_digit_run(s: Seq<char>) -> int
    decreases s.len(),
{
    if s.len() > 0 && spec_is_digit(s[0]) {
        1 + spec_digit_run(s.drop_first())
    } else {
        0
    }
}

/// The digit run is never longer than the input.
pub proof fn lemma_digit_run_len(s: Seq<char>)
    ensures
        0 <= spec_digit_run(s) <= s.len(),
    decreases s.len(),
{
    if s.len() > 0 && spec_is_digit(s[0]) {
        lemma_digit_run_len(s.drop_first());
    }
}

/// The numeric value of a digit sequence, most significant digit first.
pub open spec fn spec_digits_val(ds: Seq<char>) -> int
    decreases ds.len(),
{
    if ds.len() == 0 {
        0
    } else {
        spec_digits_val(ds.drop_last()) * 10 + spec_digit_val(ds.last())
    }
}

/// Parses an unsigned integer: the maximal leading digit run, which must
/// fit in the number type.
pub open spec fn spec_parse_number(s: Seq<char>) -> Option<(u64, Seq<char>)> {
    if s.len() == 0 || !spec_is_digit(s[0]) {
        None
    } else {
        let k = spec_digit_run(s);
        let v = spec_digits_val(s.take(k));
        if v <= u64::MAX {
            Some((v as u64, s.skip(k)))
        } else {
            None
        }
    }
}

/// The character a short escape letter stands for.
pub open spec fn spec_short_escape(e: char) -> char {
    if e == 'n' {
        '\n'
    } else if e == 't' {
        '\t'
    } else if e == 'r' {
        '\r'
    } else if e == 'b' {
        (8u8) as char
    } else {
        (12u8) as char
    }
}

/// The value of four hexadecimal digit characters.
pub open spec fn spec_hex4(a: char, b: char, c: char, d: char) -> int {
    ((spec_hex_val(a) * 16 + spec_hex_val(b)) * 16 + spec_hex_val(c)) * 16 + spec_hex_val(d)
}

/// The character a surrogate pair of escape codes stands for.
pub open spec fn spec_pair_char(hi: int, lo: int) -> char {
    ((0x10000 + (hi - 0xD800) * 0x400 + (lo - 0xDC00)) as u32) as char
}

/// Parses a string body after its opening quote: plain characters, the
/// standard short escapes, and four-digit hexadecimal escapes with
/// surrogate pairs.  Returns the decoded characters and the input after
/// the closing quote.  Raw control characters are refused.
pub open spec fn spec_parse_string(s: Seq<char>) -> Option<(Seq<char>, Seq<char>)>
    decreases s.len(),
{
    if s.len() == 0 {
        None
    } else if s[0] == '"' {
        Some((Seq::empty(), s.drop_first()))
    } else if s[0] == '\\' {
        if s.len() < 2 {
            None
        } else {
            let e = s[1];
            if e == '"' || e == '\\' || e == '/' {
                match spec_parse_string(s.skip(2)) {
                    Some((cs, r)) => Some((seq![e] + cs, r)),
                    None => None,
                }
            } else if e == 'n' || e == 't' || e == 'r' || e == 'b' || e == 'f' {
                match spec_parse_string(s.skip(2)) {
                    Some((cs, r)) => Some((seq![spec_short_escape(e)] + cs, r)),
                    None => None,
                }
            } else if e == 'u' {
                if s.len() < 6 || !spec_is_hex(s[2]) || !spec_is_hex(s[3]) || !spec_is_hex(s[4])
                    || !spec_is_hex(s[5]) {
                    None
                } else {
                    let code = spec_hex4(s[2], s[3], s[4], s[5]);
                    if 0xD800 <= code < 0xDC00 {
                        if s.len() >= 12 && s[6] == '\\' && s[7] == 'u' && spec_is_hex(s[8])
                            && spec_is_hex(s[9]) && spec_is_hex(s[10]) && spec_is_hex(s[11]) {
                            let lo = spec_hex4(s[8], s[9], s[10], s[11]);
                            if 0xDC00 <= lo < 0xE000 {
                                match spec_parse_string(s.skip(12)) {
                                    Some((cs, r)) => Some((seq![spec_pair_char(code, lo)] + cs, r)),
                                    None => None,
                                }
                            } else {
                                None
                            }
                        } else {
                            None
                        }
                    } else if 0xDC00 <= code < 0xE000 {
                        None
                    } else {
                        match spec_parse_string(s.skip(6)) {
                            Some((cs, r)) => Some((seq![((code as u32) as char)] + cs, r)),
                            None => None,
                        }
                    }
                }
            } else {
                None
            }
        }
    } else if (s[0] as u32) < 32 {
        None
    } else {
        match spec_parse_string(s.drop_first()) {
            Some((cs, r)) => Some((seq![s[0]] + cs, r)),
            None => None,
        }
    }
}

/// Parses one JSON value after optional whitespace, returning it and the
/// unconsumed input.
pub open spec fn spec_parse_value(s: Seq<char>) -> Option<(SpecJson, Seq<char>)>
    decreases s.len(), 0int,
{
    let t = spec_skip_ws(s);
    if t.len() == 0 {
        None
    } else if t[0] == 'n' {
        if t.len() >= 4 && t[1] == 'u' && t[2] == 'l' && t[3] == 'l' {
            Some((SpecJson::Null, t.skip(4)))
        } else {
            None
        }
    } else if t[0] == 't' {
        if t.len() >= 4 && t[1] == 'r' && t[2] == 'u' && t[3] == 'e' {
            Some((SpecJson::Bool(true), t.skip(4)))
        } else {
            None
        }
    } else if t[0] == 'f' {
        if t.len() >= 5 && t[1] == 'a' && t[2] == 'l' && t[3] == 's' && t[4] == 'e' {
            Some((SpecJson::Bool(false), t.skip(5)))
        } else {
            None
        }
    } else if t[0] == '"' {
        match spec_parse_string(t.drop_first()) {
            Some((cs, r)) => Some((SpecJson::Text(cs), r)),
            None => None,
        }
    } else if spec_is_digit(t[0]) {
        match spec_parse_number(t) {
            Some((n, r)) => Some((SpecJson::Num(n), r)),
            None => None,
        }
    } else if t[0] == '[' {
        let u = spec_skip_ws(t.drop_first());
        if u.len() > 0 && u[0] == ']' {
            Some((SpecJson::Arr(Seq::empty()), u.drop_first()))
        } else if t.drop_first().len() < s.len() {
            match spec_parse_elems(t.drop_first()) {
                Some((vs, r)) => Some((SpecJson::Arr(vs), r)),
                None => None,
            }
        } else {
            None
        }
    } else if t[0] == '{' {
        let u = spec_skip_ws(t.drop_first());
        if u.len() > 0 && u[0] == '}' {
            Some((SpecJson::Obj(Seq::empty()), u.drop_first()))
        } else if t.drop_first().len() < s.len() {
            match spec_parse_pairs(t.drop_first()) {
                Some((ps, r)) => Some((SpecJson::Obj(ps), r)),
                None => None,
            }
        } else {
            None
        }
    } else {
        None
    }
}

/// Parses the elements of a non-empty array up to and including the
/// closing bracket.
pub open spec fn spec_parse_elems(s: Seq<char>) -> Option<(Seq<SpecJson>, Seq<char>)>
    decreases s.len(), 1int,
{
    match spec_parse_value(s) {
        None => None,
        Some((v, rest)) => {
            let r2 = spec_skip_ws(rest);
            if r2.len() == 0 {
                None
            } else if r2[0] == ']' {
                Some((seq![v], r2.drop_first()))
            } else if r2[0] == ',' {
                if r2.drop_first().len() < s.len() {
                    match spec_parse_elems(r2.drop_first()) {
                        Some((vs, r3)) => Some((seq![v] + vs, r3)),
                        None => None,
                    }
                } else {
                    None
                }
            } else {
                None
            }
        },
    }
}

/// Parses the pairs of a non-empty object up to and including the closing
/// brace.
pub open spec fn spec_parse_pairs(s: Seq<char>) -> Option<(
    Seq<(Seq<char>, SpecJson)>,
    Seq<char>,
)>
    decreases s.len(), 1int,
{
    let t = spec_skip_ws(s);
    if t.len() == 0 || t[0] != '"' {
        None
    } else {
        match spec_parse_string(t.drop_first()) {
            None => None,
            Some((key, r1)) => {
                let r2 = spec_skip_ws(r1);
                if r2.len() == 0 || r2[0] != ':' {
                    None
                } else {
                    let r3 = r2.drop_first();
                    if r3.len() <= s.len() {
                        match spec_parse_value(r3) {
                            None => None,
                            Some((v, r4)) => {
                                let r5 = spec_skip_ws(r4);
                                if r5.len() == 0 {
                                    None
                                } else if r5[0] == '}' {
                                    Some((seq![(key, v)], r5.drop_first()))
                                } else if r5[0] == ',' {
                                    if r5.drop_first().len() < s.len() {
                                        match spec_parse_pairs(r5.drop_first()) {
                                            Some((ps, r6)) => Some((seq![(key, v)] + ps, r6)),
                                            None => None,
                                        }
                                    } else {
                                        None
                                    }
                                } else {
                                    None
                                }
                            },
                        }
                    } else {
                        None
                    }
                }
            },
        }
    }
}

/// Parses a complete JSON document: one value with nothing but whitespace
/// after it.
pub open spec fn spec_parse_json(s: Seq<char>) -> Option<SpecJson> {
    match spec_parse_value(s) {
        Some((v, rest)) => if spec_skip_ws(rest).len() == 0 {
            Some(v)
        } else {
            None
        },
        None => None,
    }
}

/// The value of a digit sequence is never negative.
pub proof fn lemma_digits_val_nonneg(ds: Seq<char>)
    requires
        forall|i: int| 0 <= i < ds.len() ==> spec_is_digit(#[trigger] ds[i]),
    ensures
        spec_digits_val(ds) >= 0,
    decreases ds.len(),
{
    if ds.len() > 0 {
        lemma_digits_val_nonneg(ds.drop_last());
    }
}

/// Extending an all-digit sequence never lowers its value.
pub proof fn lemma_digits_val_prefix(ds: Seq<char>, m: int)
    requires
        forall|i: int| 0 <= i < ds.len() ==> spec_is_digit(#[trigger] ds[i]),
        0 <= m <= ds.len(),
    ensures
        spec_digits_val(ds.take(m)) <= spec_digits_val(ds),
    decreases ds.len() - m,
{
    if m < ds.len() {
        lemma_digits_val_prefix(ds, m + 1);
        let t = ds.take(m + 1);
        assert(t.drop_last() =~= ds.take(m));
        lemma_digits_val_nonneg(ds.take(m));
        assert(spec_digits_val(t) == spec_digits_val(ds.take(m)) * 10 + spec_digit_val(t.last()));
        assert(spec_digits_val(ds.take(m)) <= spec_digits_val(ds.take(m)) * 10 + spec_digit_val(
            t.last(),
        ));
    } else {
        assert(ds.take(m) =~= ds);
    }
}

/// Every character inside the digit run is a digit, and the run is maximal.
pub proof fn lemma_digit_run_chars(s: Seq<char>)
    ensures
        0 <= spec_digit_run(s) <= s.len(),
        forall|i: int| 0 <= i < spec_digit_run(s) ==> spec_is_digit(#[trigger] s[i]),
        spec_digit_run(s) < s.len() ==> !spec_is_digit(s[spec_digit_run(s)]),
    decreases s.len(),
{
    if s.len() > 0 && spec_is_digit(s[0]) {
        lemma_digit_run_chars(s.drop_first());
        assert forall|i: int| 0 <= i < spec_digit_run(s) implies spec_is_digit(
            #[trigger] s[i],
        ) by {
            if i > 0 {
                assert(s.drop_first()[i - 1] == s[i]);
                assert(spec_is_digit(s.drop_first()[i - 1]));
            }
        }
        if spec_digit_run(s) < s.len() {
            assert(s.drop_first()[spec_digit_run(s) - 1] == s[spec_digit_run(s)]);
        }
    }
}

/// The numeric value of the decimal digit character, when it is one.
pub fn digit_val(c: char) -> (r: Option<u32>)
    ensures
        r is Some <==> spec_is_digit(c),
        r matches Some(v) ==> v == spec_digit_val(c) && v < 10,
{
    let u: u32 = c as u32;
    if 48 <= u && u <= 57 {
        Some(u - 48)
    } else {
        None
    }
}

/// The numeric value of the hexadecimal digit character, when it is one.
pub fn hex_val(c: char) -> (r: Option<u32>)
    ensures
        r is Some <==> spec_is_hex(c),
        r matches Some(v) ==> v == spec_hex_val(c) && v < 16,
{
    let u: u32 = c as u32;
    if 48 <= u && u <= 57 {
        Some(u - 48)
    } else if 97 <= u && u <= 102 {
        Some(u - 87)
    } else if 65 <= u && u <= 70 {
        Some(u - 55)
    } else {
        None
    }
}

/// Advances past insignificant whitespace.
#[verifier::loop_isolation(false)]
pub fn skip_ws_at(s: &Vec<char>, i: usize) -> (j: usize)
    requires
        i <= s@.len(),
    ensures
        i <= j <= s@.len(),
        s@.skip(j as int) == spec_skip_ws(s@.skip(i as int)),
{
    let n: usize = s.len();
    let mut cur: usize = i;
    while cur < n && (s[cur] == ' ' || s[cur] == '\t' || s[cur] == '\n' || s[cur] == '\r')
        invariant
            i <= cur <= n,
            spec_skip_ws(s@.skip(i as int)) == spec_skip_ws(s@.skip(cur as int)),
        decreases n - cur,
    {
        proof {
            assert(s@.skip(cur as int)[0] == s@[cur as int]);
            assert(s@.skip(cur as int).drop_first() =~= s@.skip(cur + 1));
            assert(spec_skip_ws(s@.skip(cur as int)) == spec_skip_ws(s@.skip(cur + 1)));
        }
        cur = cur + 1;
    }
    proof {
        if cur < n {
            assert(s@.skip(cur as int)[0] == s@[cur as int]);
        }
        assert(spec_skip_ws(s@.skip(cur as int)) == s@.skip(cur as int));
    }
    cur
}

/// Decodes one escape sequence starting at a backslash, returning the
/// decoded character and the position just past the escape.
#[verifier::loop_isolation(false)]
#[verifier::rlimit(60)]
pub fn parse_escape_at(s: &Vec<char>, cur: usize) -> (r: Result<(char, usize), ()>)
    requires
        cur < s@.len(),
        s@[cur as int] == '\\',
    ensures
        (r matches Ok(p) ==> cur < p.1 <= s@.len() && (match spec_parse_string(
            s@.skip(p.1 as int),
        ) {
            Some(q) => spec_parse_string(s@.skip(cur as int)) == Some((seq![p.0] + q.0, q.1)),
            None => spec_parse_string(s@.skip(cur as int)) is None,
        })),
        r is Err ==> spec_parse_string(s@.skip(cur as int)) is None,
{
    let n: usize = s.len();
    let ghost t = s@.skip(cur as int);
    proof {
        assert(t[0] == s@[cur as int]);
    }
    if cur + 1 >= n {
        proof {
            assert(t.len() < 2);
            assert(spec_parse_string(t) is None);
        }
        return Err(());
    }
    proof {
        assert(t[1] == s@[cur + 1]);
    }
    let e = s[cur + 1];
    if e == '"' || e == '\\' || e == '/' {
        proof {
            assert(t.skip(2) =~= s@.skip(cur + 2));
        }
        Ok((e, cur + 2))
    } else if e == 'n' || e == 't' || e == 'r' || e == 'b' || e == 'f' {
        let decoded: char = if e == 'n' {
            '\n'
        } else if e == 't' {
            '\t'
        } else if e == 'r' {
            '\r'
        } else if e == 'b' {
            (8u8) as char
        } else {
            (12u8) as char
        };
        proof {
            assert(t.skip(2) =~= s@.skip(cur + 2));
            assert(decoded == spec_short_escape(e));
        }
        Ok((decoded, cur + 2))
    } else if e == 'u' {
        if n - cur < 6 {
            proof {
                assert(t.len() < 6);
                assert(spec_parse_string(t) is None);
            }
            return Err(());
        }
        proof {
            assert(t[2] == s@[cur + 2]);
            assert(t[3] == s@[cur + 3]);
            assert(t[4] == s@[cur + 4]);
            assert(t[5] == s@[cur + 5]);
        }
        let h0 = hex_val(s[cur + 2]);
        let h1 = hex_val(s[cur + 3]);
        let h2 = hex_val(s[cur + 4]);
        let h3 = hex_val(s[cur + 5]);
        let (a, b2, c2, d2) = match (h0, h1, h2, h3) {
            (Some(a), Some(b2), Some(c2), Some(d2)) => (a, b2, c2, d2),
            _ => {
                proof {
                    assert(spec_parse_string(t) is None);
                }
                return Err(());
            },
        };
        let code: u32 = ((a * 16 + b2) * 16 + c2) * 16 + d2;
        proof {
            assert(code == spec_hex4(t[2], t[3], t[4], t[5]));
        }
        if 0xD800 <= code && code < 0xDC00 {
            if n - cur < 12 {
                proof {
                    assert(t.len() < 12);
                    assert(spec_parse_string(t) is None);
                }
                return Err(());
            }
            proof {
                assert(t[6] == s@[cur + 6]);
                assert(t[7] == s@[cur + 7]);
                assert(t[8] == s@[cur + 8]);
                assert(t[9] == s@[cur + 9]);
                assert(t[10] == s@[cur + 10]);
                assert(t[11] == s@[cur + 11]);
            }
            if !(s[cur + 6] == '\\' && s[cur + 7] == 'u') {
                proof {
                    assert(spec_parse_string(t) is None);
                }
                return Err(());
            }
            let l0 = hex_val(s[cur + 8]);
            let l1 = hex_val(s[cur + 9]);
            let l2 = hex_val(s[cur + 10]);
            let l3 = hex_val(s[cur + 11]);
            let (la, lb, lc, ld) = match (l0, l1, l2, l3) {
                (Some(la), Some(lb), Some(lc), Some(ld)) => (la, lb, lc, ld),
                _ => {
                    proof {
                        assert(spec_parse_string(t) is None);
                    }
                    return Err(());
                },
            };
            let lo: u32 = ((la * 16 + lb) * 16 + lc) * 16 + ld;
            proof {
                assert(lo == spec_hex4(t[8], t[9], t[10], t[11]));
            }
            if !(0xDC00 <= lo && lo < 0xE000) {
                proof {
                    assert(spec_parse_string(t) is None);
                }
                return Err(());
            }
            let combined: u32 = 0x10000 + (code - 0xD800) * 0x400 + (lo - 0xDC00);
            let decoded = match char_from_u32(combined) {
                Some(d) => d,
                None => {
                    proof {
                        assert(false);
                    }
                    return Err(());
                },
            };
            proof {
                vstd::utf8::char_u32_cast(decoded, combined);
                assert(decoded == spec_pair_char(code as int, lo as int));
                assert(t.skip(12) =~= s@.skip(cur + 12));
            }
            Ok((decoded, cur + 12))
        } else if 0xDC00 <= code && code < 0xE000 {
            proof {
                assert(spec_parse_string(t) is None);
            }
            Err(())
        } else {
            let decoded = match char_from_u32(code) {
                Some(d) => d,
                None => {
                    proof {
                        assert(false);
                    }
                    return Err(());
                },
            };
            proof {
                vstd::utf8::char_u32_cast(decoded, code);
                assert(decoded == ((spec_hex4(t[2], t[3], t[4], t[5]) as u32) as char));
                assert(t.skip(6) =~= s@.skip(cur + 6));
            }
            Ok((decoded, cur + 6))
        }
    } else {
        proof {
            assert(spec_parse_string(t) is None);
        }
        Err(())
    }
}

/// Parses a string body from just after its opening quote, returning the
/// decoded content and the position after the closing quote.
#[verifier::loop_isolation(false)]
#[verifier::rlimit(60)]
pub fn parse_string_at(s: &Vec<char>, i: usize) -> (r: Result<(String, usize), ()>)
    requires
        i <= s@.len(),
    ensures
        (r matches Ok(p) ==> i <= p.1 <= s@.len() && spec_parse_string(s@.skip(i as int))
            == Some((p.0@, s@.skip(p.1 as int)))),
        r is Err ==> spec_parse_string(s@.skip(i as int)) is None,
{
    let n: usize = s.len();
    let mut cur: usize = i;
    let mut out = String::new();
    while cur < n
        invariant
            i <= cur <= n,
            (match spec_parse_string(s@.skip(cur as int)) {
                Some(p) => spec_parse_string(s@.skip(i as int)) == Some((out@ + p.0, p.1)),
                None => spec_parse_string(s@.skip(i as int)) is None,
            }),
        decreases n - cur,
    {
        let ghost t = s@.skip(cur as int);
        proof {
            assert(t[0] == s@[cur as int]);
        }
        let c = s[cur];
        if c == '"' {
            proof {
                assert(t.drop_first() =~= s@.skip(cur + 1));
                assert(spec_parse_string(t) == Some((Seq::<char>::empty(), s@.skip(cur + 1))));
                assert(out@ + Seq::<char>::empty() =~= out@);
            }
            return Ok((out, cur + 1));
        } else if c == '\\' {
            let (decoded, next) = match parse_escape_at(s, cur) {
                Ok(p) => p,
                Err(()) => {
                    return Err(());
                },
            };
            let ghost out0 = out@;
            push_char(&mut out, decoded);
            proof {
                if let Some(p) = spec_parse_string(s@.skip(next as int)) {
                    assert(spec_parse_string(t) == Some((seq![decoded] + p.0, p.1)));
                    assert(out@ + p.0 =~= out0 + (seq![decoded] + p.0));
                } else {
                    assert(spec_parse_string(t) is None);
                }
            }
            cur = next;
        } else if (c as u32) < 32 {
            proof {
                assert(spec_parse_string(t) is None);
            }
            return Err(());
        } else {
            proof {
                assert(t.drop_first() =~= s@.skip(cur + 1));
            }
            let ghost out0 = out@;
            push_char(&mut out, c);
            proof {
                if let Some(p) = spec_parse_string(s@.skip(cur + 1)) {
                    assert(spec_parse_string(t) == Some((seq![c] + p.0, p.1)));
                    assert(out@ + p.0 =~= out0 + (seq![c] + p.0));
                } else {
                    assert(spec_parse_string(t) is None);
                }
            }
            cur = cur + 1;
        }
    }
    proof {
        assert(s@.skip(cur as int).len() == 0);
        assert(spec_parse_string(s@.skip(cur as int)) is None);
    }
    Err(())
}

/// Parses an unsigned integer at the given position.
#[verifier::loop_isolation(false)]
#[verifier::rlimit(60)]
pub fn parse_number_at(s: &Vec<char>, i: usize) -> (r: Result<(u64, usize), ()>)
    requires
        i <= s@.len(),
    ensures
        (r matches Ok(p) ==> i < p.1 <= s@.len() && spec_parse_number(s@.skip(i as int))
            == Some((p.0, s@.skip(p.1 as int)))),
        r is Err ==> spec_parse_number(s@.skip(i as int)) is None,
{
    let ghost t = s@.skip(i as int);
    proof {
        lemma_digit_run_chars(t);
    }
    let n: usize = s.len();
    if i == n {
        return Err(());
    }
    proof {
        assert(t[0] == s@[i as int]);
    }
    match digit_val(s[i]) {
        Some(_) => {},
        None => {
            return Err(());
        },
    }
    let mut cur: usize = i;
    let mut acc: u64 = 0;
    proof {
        assert(t.take(0) =~= Seq::<char>::empty());
    }
    while cur < n && (48 <= (s[cur] as u32) && (s[cur] as u32) <= 57)
        invariant
            i <= cur <= n,
            spec_digit_run(t) == (cur - i) + spec_digit_run(s@.skip(cur as int)),
            acc == spec_digits_val(t.take(cur - i)),
        decreases n - cur,
    {
        let ghost u = s@.skip(cur as int);
        proof {
            assert(u[0] == s@[cur as int]);
            assert(u.drop_first() =~= s@.skip(cur + 1));
            assert(spec_digit_run(u) == 1 + spec_digit_run(s@.skip(cur + 1)));
        }
        let d64: u64 = ((s[cur] as u32) - 48) as u64;
        proof {
            assert(t[cur - i] == s@[cur as int]);
            assert(t.take(cur - i + 1).drop_last() =~= t.take(cur - i));
            assert(t.take(cur - i + 1).last() == t[cur - i]);
            assert(spec_digits_val(t.take(cur - i + 1)) == acc * 10 + d64);
        }
        if acc > (u64::MAX - d64) / 10 {
            proof {
                assert(acc * 10 + d64 > u64::MAX) by (nonlinear_arith)
                    requires
                        acc > (u64::MAX - d64) / 10,
                        d64 < 10,
                        acc >= 0,
                ;
                // the full run's value only grows from here
                lemma_digit_run_len(s@.skip(cur + 1));
                assert(cur - i + 1 <= spec_digit_run(t));
                assert(forall|k: int|
                    0 <= k < spec_digit_run(t) ==> spec_is_digit(#[trigger] t[k]));
                assert(forall|k: int|
                    0 <= k < spec_digit_run(t) ==> spec_is_digit(
                        #[trigger] t.take(spec_digit_run(t))[k],
                    ));
                lemma_digits_val_prefix(t.take(spec_digit_run(t)), cur - i + 1);
                assert(t.take(spec_digit_run(t)).take(cur - i + 1) =~= t.take(cur - i + 1));
                assert(spec_digits_val(t.take(spec_digit_run(t))) > u64::MAX);
                assert(spec_parse_number(t) is None);
            }
            return Err(());
        }
        acc = acc * 10 + d64;
        cur = cur + 1;
    }
    proof {
        if cur < n {
            assert(s@.skip(cur as int)[0] == s@[cur as int]);
        }
        assert(spec_digit_run(s@.skip(cur as int)) == 0);
        assert(spec_digit_run(t) == cur - i);
        assert(cur > i);
        assert(t.skip(cur - i) =~= s@.skip(cur as int));
        assert(spec_parse_number(t) == Some((acc, s@.skip(cur as int))));
    }
    Ok((acc, cur))
}

/// Parses one JSON value at the given position, after optional whitespace.
#[verifier::loop_isolation(false)]
#[verifier::rlimit(60)]
pub fn parse_value_at(s: &Vec<char>, i: usize) -> (r: Result<(Json, usize), ()>)
    requires
        i <= s@.len(),
    ensures
        (r matches Ok(p) ==> i < p.1 <= s@.len() && spec_parse_value(s@.skip(i as int))
            == Some((p.0@, s@.skip(p.1 as int)))),
        r is Err ==> spec_parse_value(s@.skip(i as int)) is None,
    decreases s@.len() - i, 0int,
{
    let n: usize = s.len();
    let j = skip_ws_at(s, i);
    let ghost t = s@.skip(j as int);
    proof {
        assert(t == spec_skip_ws(s@.skip(i as int)));
    }
    if j == n {
        proof {
            assert(t.len() == 0);
        }
        return Err(());
    }
    proof {
        assert(t[0] == s@[j as int]);
        assert(forall|k: int| 0 <= k < t.len() ==> #[trigger] t[k] == s@[j + k]);
    }
    let c = s[j];
    if c == 'n' {
        if n - j >= 4 && s[j + 1] == 'u' && s[j + 2] == 'l' && s[j + 3] == 'l' {
            proof {
                assert(t.skip(4) =~= s@.skip(j + 4));
            }
            Ok((Json::Null, j + 4))
        } else {
            Err(())
        }
    } else if c == 't' {
        if n - j >= 4 && s[j + 1] == 'r' && s[j + 2] == 'u' && s[j + 3] == 'e' {
            proof {
                assert(t.skip(4) =~= s@.skip(j + 4));
            }
            Ok((Json::Bool(true), j + 4))
        } else {
            Err(())
        }
    } else if c == 'f' {
        if n - j >= 5 && s[j + 1] == 'a' && s[j + 2] == 'l' && s[j + 3] == 's' && s[j + 4]
            == 'e' {
            proof {
                assert(t.skip(5) =~= s@.skip(j + 5));
            }
            Ok((Json::Bool(false), j + 5))
        } else {
            Err(())
        }
    } else if c == '"' {
        proof {
            assert(t.drop_first() =~= s@.skip(j + 1));
        }
        match parse_string_at(s, j + 1) {
            Ok((cs, k)) => Ok((Json::Text(cs), k)),
            Err(()) => Err(()),
        }
    } else if 48 <= (c as u32) && (c as u32) <= 57 {
        match parse_number_at(s, j) {
            Ok((num, k)) => {
                proof {
                    assert(t =~= s@.skip(j as int));
                }
                Ok((Json::Num(num), k))
            },
            Err(()) => Err(()),
        }
    } else if c == '[' {
        proof {
            assert(t.drop_first() =~= s@.skip(j + 1));
        }
        let u = skip_ws_at(s, j + 1);
        if u < n && s[u] == ']' {
            proof {
                assert(s@.skip(u as int)[0] == s@[u as int]);
                assert(s@.skip(u as int).drop_first() =~= s@.skip(u + 1));
                assert(jsons_view(Seq::<Json>::empty()) =~= Seq::<SpecJson>::empty());
            }
            let empty: Vec<Json> = Vec::new();
            Ok((Json::Arr(empty), u + 1))
        } else {
            proof {
                // the empty-array branch of the grammar does not apply
                if s@.skip(u as int).len() > 0 {
                    assert(s@.skip(u as int)[0] == s@[u as int]);
                }
                assert(t.drop_first().len() < s@.skip(i as int).len());
            }
            match parse_elems_at(s, j + 1) {
                Ok((vs, k)) => Ok((Json::Arr(vs), k)),
                Err(()) => Err(()),
            }
        }
    } else if c == '{' {
        proof {
            assert(t.drop_first() =~= s@.skip(j + 1));
        }
        let u = skip_ws_at(s, j + 1);
        if u < n && s[u] == '}' {
            proof {
                assert(s@.skip(u as int)[0] == s@[u as int]);
                assert(s@.skip(u as int).drop_first() =~= s@.skip(u + 1));
                assert(jpairs_view(Seq::<(String, Json)>::empty()) =~= Seq::<(
                    Seq<char>,
                    SpecJson,
                )>::empty());
            }
            let empty: Vec<(String, Json)> = Vec::new();
            Ok((Json::Obj(empty), u + 1))
        } else {
            proof {
                if s@.skip(u as int).len() > 0 {
                    assert(s@.skip(u as int)[0] == s@[u as int]);
                }
                assert(t.drop_first().len() < s@.skip(i as int).len());
            }
            match parse_pairs_at(s, j + 1) {
                Ok((ps, k)) => Ok((Json::Obj(ps), k)),
                Err(()) => Err(()),
            }
        }
    } else {
        Err(())
    }
}

/// Parses the elements of a non-empty array up to and including the
/// closing bracket.
#[verifier::loop_isolation(false)]
#[verifier::rlimit(60)]
pub fn parse_elems_at(s: &Vec<char>, i: usize) -> (r: Result<(Vec<Json>, usize), ()>)
    requires
        i <= s@.len(),
    ensures
        (r matches Ok(p) ==> i < p.1 <= s@.len() && spec_parse_elems(s@.skip(i as int))
            == Some((jsons_view(p.0@), s@.skip(p.1 as int)))),
        r is Err ==> spec_parse_elems(s@.skip(i as int)) is None,
    decreases s@.len() - i, 1int,
{
    let n: usize = s.len();
    let (v, j) = match parse_value_at(s, i) {
        Ok(p) => p,
        Err(()) => {
            return Err(());
        },
    };
    let k = skip_ws_at(s, j);
    let ghost r2 = s@.skip(k as int);
    proof {
        assert(r2 == spec_skip_ws(s@.skip(j as int)));
    }
    if k == n {
        proof {
            assert(r2.len() == 0);
        }
        return Err(());
    }
    proof {
        assert(r2[0] == s@[k as int]);
    }
    if s[k] == ']' {
        proof {
            assert(r2.drop_first() =~= s@.skip(k + 1));
            assert(jsons_view(seq![v]) =~= seq![json_view(v)]) by {
                assert(seq![v].drop_first() =~= Seq::<Json>::empty());
                assert(jsons_view(Seq::<Json>::empty()) == Seq::<SpecJson>::empty());
                assert(seq![v][0] == v);
            }
        }
        let mut out: Vec<Json> = Vec::new();
        out.push(v);
        proof {
            assert(out@ =~= seq![v]);
        }
        Ok((out, k + 1))
    } else if s[k] == ',' {
        proof {
            assert(r2.drop_first() =~= s@.skip(k + 1));
            assert(r2.drop_first().len() < s@.skip(i as int).len());
        }
        match parse_elems_at(s, k + 1) {
            Ok((rest, m)) => {
                let mut out: Vec<Json> = Vec::new();
                out.push(v);
                let mut rest = rest;
                let ghost restv = rest@;
                out.append(&mut rest);
                proof {
                    assert(out@ =~= seq![v] + restv);
                    assert(jsons_view(seq![v] + restv) =~= seq![json_view(v)] + jsons_view(
                        restv,
                    )) by {
                        assert((seq![v] + restv).drop_first() =~= restv);
                        assert((seq![v] + restv)[0] == v);
                    }
                }
                Ok((out, m))
            },
            Err(()) => Err(()),
        }
    } else {
        Err(())
    }
}

/// Parses the pairs of a non-empty object up to and including the closing
/// brace.
#[verifier::loop_isolation(false)]
#[verifier::rlimit(60)]
pub fn parse_pairs_at(s: &Vec<char>, i: usize) -> (r: Result<(Vec<(String, Json)>, usize), ()>)
    requires
        i <= s@.len(),
    ensures
        (r matches Ok(p) ==> i < p.1 <= s@.len() && spec_parse_pairs(s@.skip(i as int))
            == Some((jpairs_view(p.0@), s@.skip(p.1 as int)))),
        r is Err ==> spec_parse_pairs(s@.skip(i as int)) is None,
    decreases s@.len() - i, 1int,
{
    let n: usize = s.len();
    let j0 = skip_ws_at(s, i);
    let ghost t = s@.skip(j0 as int);
    proof {
        assert(t == spec_skip_ws(s@.skip(i as int)));
    }
    if j0 == n {
        proof {
            assert(t.len() == 0);
        }
        return Err(());
    }
    proof {
        assert(t[0] == s@[j0 as int]);
    }
    if s[j0] != '"' {
        return Err(());
    }
    proof {
        assert(t.drop_first() =~= s@.skip(j0 + 1));
    }
    let (key, j1) = match parse_string_at(s, j0 + 1) {
        Ok(p) => p,
        Err(()) => {
            return Err(());
        },
    };
    let j2 = skip_ws_at(s, j1);
    let ghost r2 = s@.skip(j2 as int);
    proof {
        assert(r2 == spec_skip_ws(s@.skip(j1 as int)));
    }
    if j2 == n {
        proof {
            assert(r2.len() == 0);
        }
        return Err(());
    }
    proof {
        assert(r2[0] == s@[j2 as int]);
    }
    if s[j2] != ':' {
        return Err(());
    }
    proof {
        assert(r2.drop_first() =~= s@.skip(j2 + 1));
        assert(s@.skip(j2 + 1).len() <= s@.skip(i as int).len());
    }
    let (v, j3) = match parse_value_at(s, j2 + 1) {
        Ok(p) => p,
        Err(()) => {
            return Err(());
        },
    };
    let j4 = skip_ws_at(s, j3);
    let ghost r5 = s@.skip(j4 as int);
    proof {
        assert(r5 == spec_skip_ws(s@.skip(j3 as int)));
    }
    if j4 == n {
        proof {
            assert(r5.len() == 0);
        }
        return Err(());
    }
    proof {
        assert(r5[0] == s@[j4 as int]);
    }
    if s[j4] == '}' {
        proof {
            assert(r5.drop_first() =~= s@.skip(j4 + 1));
            assert(jpairs_view(seq![(key, v)]) =~= seq![(key@, json_view(v))]) by {
                assert(seq![(key, v)].drop_first() =~= Seq::<(String, Json)>::empty());
                assert(jpairs_view(Seq::<(String, Json)>::empty()) == Seq::<(
                    Seq<char>,
                    SpecJson,
                )>::empty());
                assert(seq![(key, v)][0] == (key, v));
            }
        }
        let mut out: Vec<(String, Json)> = Vec::new();
        out.push((key, v));
        proof {
            assert(out@ =~= seq![(key, v)]);
        }
        Ok((out, j4 + 1))
    } else if s[j4] == ',' {
        proof {
            assert(r5.drop_first() =~= s@.skip(j4 + 1));
            assert(r5.drop_first().len() < s@.skip(i as int).len());
        }
        match parse_pairs_at(s, j4 + 1) {
            Ok((rest, m)) => {
                let mut out: Vec<(String, Json)> = Vec::new();
                let ghost keyv = key@;
                out.push((key, v));
                let mut rest = rest;
                let ghost restv = rest@;
                out.append(&mut rest);
                proof {
                    assert(out@ =~= seq![(out@[0].0, out@[0].1)] + restv);
                    assert(out@[0].0@ == keyv);
                    assert(out@[0].1 == v);
                    assert(jpairs_view(out@) =~= seq![(keyv, json_view(v))] + jpairs_view(
                        restv,
                    )) by {
                        assert(out@.drop_first() =~= restv);
                    }
                }
                Ok((out, m))
            },
            Err(()) => Err(()),
        }
    } else {
        Err(())
    }
}

/// Parses a complete JSON document from characters: one value with nothing
/// but whitespace after it.
pub fn parse_json_chars(s: &Vec<char>) -> (r: Result<Json, ()>)
    ensures
        (r matches Ok(v) ==> spec_parse_json(s@) == Some(v@)),
        r is Err ==> spec_parse_json(s@) is None,
{
    proof {
        assert(s@.skip(0) =~= s@);
    }
    match parse_value_at(s, 0) {
        Ok((v, j)) => {
            let k = skip_ws_at(s, j);
            if k == s.len() {
                proof {
                    assert(spec_skip_ws(s@.skip(j as int)).len() == 0);
                }
                Ok(v)
            } else {
                proof {
                    assert(spec_skip_ws(s@.skip(j as int)).len() > 0);
                }
                Err(())
            }
        },
        Err(()) => Err(()),
    }
}

/// Parses a complete JSON document from text.
pub fn parse_json_text(s: &str) -> (r: Result<Json, ()>)
    ensures
        (r matches Ok(v) ==> spec_parse_json(s@) == Some(v@)),
        r is Err ==> spec_parse_json(s@) is None,
{
    let chars = crate::strutil::str_chars(s);
    parse_json_chars(&chars)
}

/// A decimal digit character stands for its value.
pub proof fn lemma_digit_char(d: int)
    requires
        0 <= d <= 9,
    ensures
        spec_is_digit(crate::strutil::spec_digit(d)),
        spec_digit_val(crate::strutil::spec_digit(d)) == d,
{
}

/// A hexadecimal digit character stands for its value.
pub proof fn lemma_hex_char(d: int)
    requires
        0 <= d < 16,
    ensures
        spec_is_hex(spec_hex_char(d)),
        spec_hex_val(spec_hex_char(d)) == d,
{
}

/// The decimal notation of a number is a non-empty run of digits whose
/// value is the number.
pub proof fn lemma_dec_digits(n: nat)
    ensures
        spec_dec(n).len() >= 1,
        forall|i: int| 0 <= i < spec_dec(n).len() ==> spec_is_digit(#[trigger] spec_dec(n)[i]),
        spec_digits_val(spec_dec(n)) == n,
    decreases n,
{
    if n < 10 {
        lemma_digit_char(n as int);
        let w = spec_dec(n);
        assert(w =~= seq![crate::strutil::spec_digit(n as int)]);
        assert(w.drop_last() =~= Seq::<char>::empty());
        assert(spec_digits_val(Seq::<char>::empty()) == 0);
        assert(spec_digits_val(w) == spec_digit_val(w.last()));
    } else {
        vstd::arithmetic::div_mod::lemma_fundamental_div_mod(n as int, 10);
        lemma_dec_digits(n / 10);
        lemma_digit_char((n % 10) as int);
        let w = spec_dec(n);
        assert(w =~= spec_dec(n / 10).push(crate::strutil::spec_digit((n % 10) as int)));
        assert(w.drop_last() =~= spec_dec(n / 10));
        assert(w.last() == crate::strutil::spec_digit((n % 10) as int));
        assert(spec_digits_val(w) == spec_digits_val(spec_dec(n / 10)) * 10 + (n % 10));
        assert(forall|i: int| 0 <= i < w.len() - 1 ==> w[i] == #[trigger] spec_dec(n / 10)[i]);
    }
}

/// The digit run of an all-digit text followed by a non-digit is exactly
/// the all-digit text.
pub proof fn lemma_digit_run_concat(a: Seq<char>, b: Seq<char>)
    requires
        forall|i: int| 0 <= i < a.len() ==> spec_is_digit(#[trigger] a[i]),
        b.len() == 0 || !spec_is_digit(b[0]),
    ensures
        spec_digit_run(a + b) == a.len(),
    decreases a.len(),
{
    if a.len() == 0 {
        assert(a + b =~= b);
    } else {
        lemma_digit_run_concat(a.drop_first(), b);
        assert((a + b)[0] == a[0]);
        assert((a + b).drop_first() =~= a.drop_first() + b);
    }
}

/// Parsing the printed decimal notation of a number, followed by anything
/// that does not begin with a digit, yields the number back.
pub proof fn lemma_parse_print_number(n: u64, rest: Seq<char>)
    requires
        rest.len() == 0 || !spec_is_digit(rest[0]),
    ensures
        spec_parse_number(spec_dec(n as nat) + rest) == Some((n, rest)),
{
    let a = spec_dec(n as nat);
    let s = a + rest;
    lemma_dec_digits(n as nat);
    lemma_digit_run_concat(a, rest);
    assert(s[0] == a[0]);
    assert(spec_is_digit(s[0]));
    assert(spec_digit_run(s) == a.len());
    assert(s.take(a.len() as int) =~= a);
    assert(s.skip(a.len() as int) =~= rest);
    assert(spec_digits_val(s.take(a.len() as int)) == n);
}

/// Parsing the escaped body of a string, followed by its closing quote and
/// anything after, yields the body back.
pub proof fn lemma_parse_print_string(t: Seq<char>, rest: Seq<char>)
    ensures
        spec_parse_string(spec_escape(t) + seq!['"'] + rest) == Some((t, rest)),
    decreases t.len(),
{
    let s = spec_escape(t) + seq!['"'] + rest;
    if t.len() == 0 {
        assert(spec_escape(t) == Seq::<char>::empty());
        assert(s =~= seq!['"'] + rest);
        assert(s[0] == '"');
        assert(s.drop_first() =~= rest);
    } else {
        lemma_parse_print_string(t.drop_first(), rest);
        let c = t[0];
        let tail = spec_escape(t.drop_first()) + seq!['"'] + rest;
        assert(s =~= spec_escape_char(c) + tail);
        if c == '"' {
            assert(s[0] == '\\');
            assert(s[1] == '"');
            assert(s.len() >= 2);
            assert(s.skip(2) =~= tail);
            assert(seq![c] + t.drop_first() =~= t);
        } else if c == '\\' {
            assert(s[0] == '\\');
            assert(s[1] == '\\');
            assert(s.skip(2) =~= tail);
            assert(seq![c] + t.drop_first() =~= t);
        } else if (c as u32) < 32 {
            let hi = (c as u32) as int / 16;
            let lo = (c as u32) as int % 16;
            lemma_hex_char(hi);
            lemma_hex_char(lo);
            assert(s[0] == '\\');
            assert(s[1] == 'u');
            assert(s[2] == '0');
            assert(s[3] == '0');
            assert(s[4] == spec_hex_char(hi));
            assert(s[5] == spec_hex_char(lo));
            assert(s.len() >= 6);
            assert(spec_hex_val('0') == 0);
            let code = spec_hex4(s[2], s[3], s[4], s[5]);
            assert(code == hi * 16 + lo);
            assert(code == c as u32);
            assert(code < 32);
            assert(s.skip(6) =~= tail);
            vstd::utf8::char_u32_cast(c, c as u32);
            assert(((code as u32) as char) == c);
            assert(seq![c] + t.drop_first() =~= t);
        } else {
            assert(s[0] == c);
            assert(s.drop_first() =~= tail);
            assert(seq![c] + t.drop_first() =~= t);
        }
    }
}

/// The printed text of a value is non-empty, and its first character is
/// neither whitespace nor a closing delimiter nor a comma.
pub proof fn lemma_print_first(v: SpecJson)
    ensures
        spec_print(v).len() > 0,
        !spec_is_space(spec_print(v)[0]),
        spec_print(v)[0] != ']',
        spec_print(v)[0] != '}',
        spec_print(v)[0] != ',',
{
    match v {
        SpecJson::Num(n) => {
            lemma_dec_digits(n as nat);
            assert(spec_is_digit(spec_print(v)[0]));
        },
        _ => {},
    }
}

/// Parsing the printed text of a value, followed by anything that cannot
/// extend it (nothing, or text that does not begin with a digit), yields
/// the value back.
#[verifier::rlimit(100)]
pub proof fn lemma_parse_print(v: SpecJson, rest: Seq<char>)
    requires
        v is Num ==> rest.len() == 0 || !spec_is_digit(rest[0]),
    ensures
        spec_parse_value(spec_print(v) + rest) == Some((v, rest)),
    decreases v, 0int,
{
    let s = spec_print(v) + rest;
    lemma_print_first(v);
    assert(s[0] == spec_print(v)[0]);
    assert(spec_skip_ws(s) == s);
    match v {
        SpecJson::Null => {
            assert(s[0] == 'n');
            assert(s[1] == 'u');
            assert(s[2] == 'l');
            assert(s[3] == 'l');
            assert(s.len() >= 4);
            assert(s.skip(4) =~= rest);
            assert(spec_parse_value(s) == Some((v, rest)));
        },
        SpecJson::Bool(b) => {
            if b {
                assert(s[0] == 't');
                assert(s[1] == 'r');
                assert(s[2] == 'u');
                assert(s[3] == 'e');
                assert(s.len() >= 4);
                assert(s.skip(4) =~= rest);
            } else {
                assert(s[0] == 'f');
                assert(s[1] == 'a');
                assert(s[2] == 'l');
                assert(s[3] == 's');
                assert(s[4] == 'e');
                assert(s.len() >= 5);
                assert(s.skip(5) =~= rest);
            }
            assert(spec_parse_value(s) == Some((v, rest)));
        },
        SpecJson::Num(n) => {
            lemma_parse_print_number(n, rest);
            assert(s =~= spec_dec(n as nat) + rest);
            assert(spec_is_digit(s[0]));
            assert(spec_parse_value(s) == Some((v, rest)));
        },
        SpecJson::Text(txt) => {
            assert(s[0] == '"');
            lemma_parse_print_string(txt, rest);
            assert(s.drop_first() =~= spec_escape(txt) + seq!['"'] + rest);
            assert(spec_parse_value(s) == Some((v, rest)));
        },
        SpecJson::Arr(elems) => {
            assert(s[0] == '[');
            if elems.len() == 0 {
                assert(spec_print_elems(elems) == Seq::<char>::empty());
                assert(s =~= seq!['['] + (seq![']'] + rest));
                assert(s.drop_first() =~= seq![']'] + rest);
                assert(s.drop_first()[0] == ']');
                assert(spec_skip_ws(s.drop_first()) == s.drop_first());
                assert(s.drop_first().drop_first() =~= rest);
                assert(elems =~= Seq::<SpecJson>::empty());
            } else {
                let inner = spec_print_elems(elems) + seq![']'] + rest;
                assert(s.drop_first() =~= inner);
                lemma_print_first(elems[0]);
                assert(inner[0] == spec_print(elems[0])[0]) by {
                    assert(spec_print_elems(elems)[0] == spec_print(elems[0])[0]);
                }
                assert(spec_skip_ws(inner) == inner);
                assert(inner[0] != ']');
                assert(s.drop_first().len() < s.len());
                lemma_parse_print_elems(elems, rest);
            }
            assert(spec_parse_value(s) == Some((v, rest)));
        },
        SpecJson::Obj(pairs) => {
            assert(s[0] == '{');
            if pairs.len() == 0 {
                assert(spec_print_pairs(pairs) == Seq::<char>::empty());
                assert(s =~= seq!['{'] + (seq!['}'] + rest));
                assert(s.drop_first() =~= seq!['}'] + rest);
                assert(s.drop_first()[0] == '}');
                assert(spec_skip_ws(s.drop_first()) == s.drop_first());
                assert(s.drop_first().drop_first() =~= rest);
                assert(pairs =~= Seq::<(Seq<char>, SpecJson)>::empty());
            } else {
                let inner = spec_print_pairs(pairs) + seq!['}'] + rest;
                assert(s.drop_first() =~= inner);
                assert(inner[0] == '"') by {
                    assert(spec_print_pairs(pairs)[0] == spec_print_pair(pairs[0])[0]);
                    assert(spec_print_pair(pairs[0])[0] == '"');
                }
                assert(spec_skip_ws(inner) == inner);
                assert(s.drop_first().len() < s.len());
                lemma_parse_print_pairs(pairs, rest);
            }
            assert(spec_parse_value(s) == Some((v, rest)));
        },
    }
}

/// Parsing the printed elements of a non-empty array, followed by the
/// closing bracket, yields the elements back.
pub proof fn lemma_parse_print_elems(elems: Seq<SpecJson>, rest: Seq<char>)
    requires
        elems.len() > 0,
    ensures
        spec_parse_elems(spec_print_elems(elems) + seq![']'] + rest) == Some((elems, rest)),
    decreases elems, 1int,
{
    let s = spec_print_elems(elems) + seq![']'] + rest;
    let after = spec_print_elems_rest(elems.drop_first()) + seq![']'] + rest;
    assert(s =~= spec_print(elems[0]) + after);
    if elems.drop_first().len() == 0 {
        assert(spec_print_elems_rest(elems.drop_first()) == Seq::<char>::empty());
        assert(after =~= seq![']'] + rest);
        assert(after[0] == ']');
    } else {
        assert(after[0] == ',') by {
            assert(spec_print_elems_rest(elems.drop_first())[0] == ',');
        }
    }
    assert(!spec_is_digit(after[0]));
    lemma_parse_print(elems[0], after);
    assert(spec_parse_value(s) == Some((elems[0], after)));
    assert(after.len() < s.len()) by {
        lemma_print_first(elems[0]);
    }
    assert(spec_skip_ws(after) == after);
    if elems.drop_first().len() == 0 {
        assert(after.drop_first() =~= rest);
        assert(seq![elems[0]] =~= elems);
    } else {
        assert(after.drop_first() =~= spec_print_elems(elems.drop_first()) + seq![']'] + rest) by {
            assert(spec_print_elems_rest(elems.drop_first()) =~= seq![','] + spec_print(
                elems.drop_first()[0],
            ) + spec_print_elems_rest(elems.drop_first().drop_first()));
            assert(spec_print_elems(elems.drop_first()) =~= spec_print(elems.drop_first()[0])
                + spec_print_elems_rest(elems.drop_first().drop_first()));
        }
        lemma_parse_print_elems(elems.drop_first(), rest);
        assert(seq![elems[0]] + elems.drop_first() =~= elems);
    }
}

/// Parsing the printed pairs of a non-empty object, followed by the
/// closing brace, yields the pairs back.
#[verifier::rlimit(100)]
pub proof fn lemma_parse_print_pairs(pairs: Seq<(Seq<char>, SpecJson)>, rest: Seq<char>)
    requires
        pairs.len() > 0,
    ensures
        spec_parse_pairs(spec_print_pairs(pairs) + seq!['}'] + rest) == Some((pairs, rest)),
    decreases pairs, 1int,
{
    let s = spec_print_pairs(pairs) + seq!['}'] + rest;
    let key = pairs[0].0;
    let v0 = pairs[0].1;
    let after = spec_print_pairs_rest(pairs.drop_first()) + seq!['}'] + rest;
    let afterv = spec_print(v0) + after;
    assert(s =~= spec_print_pair(pairs[0]) + after);
    assert(s =~= seq!['"'] + spec_escape(key) + seq!['"', ':'] + spec_print(v0) + after);
    assert(s[0] == '"');
    assert(spec_skip_ws(s) == s);
    assert(s.drop_first() =~= spec_escape(key) + seq!['"'] + (seq![':'] + afterv));
    lemma_parse_print_string(key, seq![':'] + afterv);
    assert(spec_parse_string(s.drop_first()) == Some((key, seq![':'] + afterv)));
    assert((seq![':'] + afterv)[0] == ':');
    assert(spec_skip_ws(seq![':'] + afterv) == seq![':'] + afterv);
    assert((seq![':'] + afterv).drop_first() =~= afterv);
    assert(afterv.len() <= s.len());
    if pairs.drop_first().len() == 0 {
        assert(spec_print_pairs_rest(pairs.drop_first()) == Seq::<char>::empty());
        assert(after =~= seq!['}'] + rest);
        assert(after[0] == '}');
    } else {
        assert(after[0] == ',') by {
            assert(spec_print_pairs_rest(pairs.drop_first())[0] == ',');
        }
    }
    assert(!spec_is_digit(after[0]));
    lemma_parse_print(v0, after);
    assert(spec_parse_value(afterv) == Some((v0, after)));
    assert(spec_skip_ws(after) == after);
    assert(after.len() < s.len()) by {
        lemma_print_first(v0);
    }
    if pairs.drop_first().len() == 0 {
        assert(after.drop_first() =~= rest);
        assert(seq![(key, v0)] =~= pairs);
        assert((key, v0) == pairs[0]);
    } else {
        assert(after.drop_first() =~= spec_print_pairs(pairs.drop_first()) + seq!['}'] + rest)
            by {
            assert(spec_print_pairs_rest(pairs.drop_first()) =~= seq![','] + spec_print_pair(
                pairs.drop_first()[0],
            ) + spec_print_pairs_rest(pairs.drop_first().drop_first()));
            assert(spec_print_pairs(pairs.drop_first()) =~= spec_print_pair(
                pairs.drop_first()[0],
            ) + spec_print_pairs_rest(pairs.drop_first().drop_first()));
        }
        lemma_parse_print_pairs(pairs.drop_first(), rest);
        assert(seq![(key, v0)] + pairs.drop_first() =~= pairs);
        assert((key, v0) == pairs[0]);
    }
}

/// Round trip of the wire text: parsing the printed text of any JSON value
/// yields exactly that value, with nothing left over.
pub proof fn lemma_json_round_trip(v: SpecJson)
    ensures
        spec_parse_json(spec_print(v)) == Some(v),
{
    lemma_parse_print(v, Seq::empty());
    assert(spec_print(v) + Seq::<char>::empty() =~= spec_print(v));
    assert(spec_skip_ws(Seq::<char>::empty()).len() == 0);
}

} // verus!
