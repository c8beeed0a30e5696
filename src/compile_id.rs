//! The identity of one compilation attempt and its canonical text form
//! `[!<autograd>_]<frame>_<frame_compile>[_<attempt>]`.
use vstd::prelude::*;

use crate::text::{
    char_vec, decimal, is_white_space, lemma_decimal, lemma_decimal_no_char, lemma_parse_decimal, lemma_split_on_append, lemma_split_on_sep, parse_u32,
    parse_u32_spec, push_char, push_text, split_char, split_on, trim, trimmed, u64_to_decimal,
};

verus! {

/// Identity of one compilation attempt: an optional compiled-autograd id, a
/// frame id, a frame-compile id and a retry attempt number.
#[derive(Clone, Copy, Debug, PartialEq, Eq, Structural)]
pub struct CompileId {
    pub compiled_autograd_id: Option<u32>,
    pub frame_id: Option<u32>,
    pub frame_compile_id: Option<u32>,
    pub attempt: Option<u32>,
}

/// The decimal text of a present number; empty for an absent one.
pub open spec fn opt_decimal(o: Option<u32>) -> Seq<char> {
    match o {
        Some(n) => decimal(n as nat),
        None => Seq::empty(),
    }
}

/// The canonical text of a compile id.
pub open spec fn encode_compile_id(c: CompileId) -> Seq<char> {
    let prefix = match c.compiled_autograd_id {
        Some(a) => seq!['!'] + decimal(a as nat) + seq!['_'],
        None => Seq::empty(),
    };
    let attempt = match c.attempt {
        Some(t) => seq!['_'] + decimal(t as nat),
        None => Seq::empty(),
    };
    prefix + opt_decimal(c.frame_id) + seq!['_'] + opt_decimal(c.frame_compile_id) + attempt
}

/// The number that the `i`-th piece holds, if it exists and is a number.
pub open spec fn piece_value(parts: Seq<Seq<char>>, i: int) -> Option<u32> {
    if 0 <= i < parts.len() {
        parse_u32_spec(parts[i])
    } else {
        None
    }
}

/// Reads a compile id back from its text: after trimming, a leading `!`
/// announces the autograd id; the `_`-separated pieces are then read by
/// position, and a piece that is not a number leaves its field absent.
pub open spec fn decode_compile_id(s: Seq<char>) -> CompileId {
    let t = trimmed(s);
    if t.len() > 0 && t[0] == '!' {
        let parts = split_on(t.drop_first(), '_');
        CompileId {
            compiled_autograd_id: piece_value(parts, 0),
            frame_id: piece_value(parts, 1),
            frame_compile_id: piece_value(parts, 2),
            attempt: piece_value(parts, 3),
        }
    } else {
        let parts = split_on(t, '_');
        CompileId {
            compiled_autograd_id: None,
            frame_id: piece_value(parts, 0),
            frame_compile_id: piece_value(parts, 1),
            attempt: piece_value(parts, 2),
        }
    }
}

fn push_decimal(s: &mut String, n: u32)
    ensures
        final(s)@ == old(s)@ + decimal(n as nat),
{
    let d = u64_to_decimal(n as u64);
    push_text(s, d.as_str());
}

/// Formats a compile id in its canonical text form.
pub fn format_compile_id(compile_id: &Option<CompileId>) -> (r: Option<String>)
    ensures
        r is None <==> compile_id is None,
        r matches Some(s) ==> s@ == encode_compile_id(compile_id.unwrap()),
{
    match compile_id {
        None => None,
        Some(cid) => {
            let mut s = String::new();
            if let Some(a) = cid.compiled_autograd_id {
                push_char(&mut s, '!');
                push_decimal(&mut s, a);
                push_char(&mut s, '_');
            }
            if let Some(f) = cid.frame_id {
                push_decimal(&mut s, f);
            }
            push_char(&mut s, '_');
            if let Some(f) = cid.frame_compile_id {
                push_decimal(&mut s, f);
            }
            if let Some(t) = cid.attempt {
                push_char(&mut s, '_');
                push_decimal(&mut s, t);
            }
            assert(s@ =~= encode_compile_id(*cid));
            Some(s)
        },
    }
}

fn piece_at(parts: &Vec<String>, i: usize) -> (r: Option<u32>)
    ensures
        r == piece_value(parts@.map_values(|p: String| p@), i as int),
{
    if i < parts.len() {
        parse_u32(parts[i].as_str())
    } else {
        None
    }
}

/// Reads a compile id from its text form; the inverse of `format_compile_id`.
pub fn parse_compile_id(compile_id_str: &Option<String>) -> (r: Option<CompileId>)
    ensures
        r is None <==> compile_id_str is None,
        r matches Some(c) ==> c == decode_compile_id(compile_id_str.unwrap()@),
{
    match compile_id_str {
        None => None,
        Some(raw) => {
            let t = trim(raw.as_str());
            let chars = char_vec(t.as_str());
            let n = chars.len();
            if n > 0 && chars[0] == '!' {
                let rest = t.as_str().substring_char(1, n);
                assert(rest@ =~= t@.drop_first());
                let parts = split_char(rest, '_');
                assert(parts@.map_values(|p: String| p@) =~= split_on(rest@, '_'));
                Some(
                    CompileId {
                        compiled_autograd_id: piece_at(&parts, 0),
                        frame_id: piece_at(&parts, 1),
                        frame_compile_id: piece_at(&parts, 2),
                        attempt: piece_at(&parts, 3),
                    },
                )
            } else {
                let parts = split_char(t.as_str(), '_');
                assert(parts@.map_values(|p: String| p@) =~= split_on(t@, '_'));
                Some(
                    CompileId {
                        compiled_autograd_id: None,
                        frame_id: piece_at(&parts, 0),
                        frame_compile_id: piece_at(&parts, 1),
                        attempt: piece_at(&parts, 2),
                    },
                )
            }
        },
    }
}

proof fn lemma_trimmed_unchanged(s: Seq<char>)
    requires
        s.len() > 0,
        !is_white_space(s[0]),
        !is_white_space(s.last()),
    ensures
        trimmed(s) == s,
{
}

proof fn lemma_opt_decimal(o: Option<u32>)
    ensures
        !opt_decimal(o).contains('_'),
        piece_value(seq![opt_decimal(o)], 0) == o,
        opt_decimal(o).len() > 0 ==> opt_decimal(o)[0] != '!' && !is_white_space(opt_decimal(o)[0])
            && !is_white_space(opt_decimal(o).last()),
{
    match o {
        Some(n) => {
            lemma_decimal_no_char(n as nat, '_');
            lemma_parse_decimal(n);
            lemma_decimal(n as nat);
            let d = decimal(n as nat);
            assert(crate::text::is_ascii_digit(d[0]));
            assert(crate::text::is_ascii_digit(d[d.len() - 1]));
        },
        None => {
            assert(!Seq::<char>::empty().contains('_'));
        },
    }
}

/// The pieces of `prefix` followed by `_` and the text of `o`.
proof fn lemma_split_step(prefix: Seq<char>, o: Option<u32>)
    ensures
        split_on(prefix.push('_') + opt_decimal(o), '_') == split_on(prefix, '_').push(
            opt_decimal(o),
        ),
{
    lemma_opt_decimal(o);
    lemma_split_on_sep(prefix, '_');
    lemma_split_on_append(prefix.push('_'), opt_decimal(o), '_');
    let p = split_on(prefix, '_').push(Seq::<char>::empty());
    assert(Seq::<char>::empty() + opt_decimal(o) =~= opt_decimal(o));
    assert(p.update(p.len() - 1, p.last() + opt_decimal(o)) =~= split_on(prefix, '_').push(
        opt_decimal(o),
    ));
}

proof fn lemma_split_first(o: Option<u32>)
    ensures
        split_on(opt_decimal(o), '_') == seq![opt_decimal(o)],
{
    lemma_opt_decimal(o);
    lemma_split_on_append(Seq::<char>::empty(), opt_decimal(o), '_');
    assert(Seq::<char>::empty() + opt_decimal(o) =~= opt_decimal(o));
    assert(split_on(Seq::<char>::empty(), '_') == seq![Seq::<char>::empty()]);
    assert(seq![Seq::<char>::empty()].update(0, Seq::<char>::empty() + opt_decimal(o))
        =~= seq![opt_decimal(o)]);
}

proof fn lemma_piece_values(parts: Seq<Seq<char>>, os: Seq<Option<u32>>)
    requires
        parts.len() == os.len(),
        forall|i: int| 0 <= i < parts.len() ==> parts[i] == opt_decimal(#[trigger] os[i]),
    ensures
        forall|i: int| 0 <= i < parts.len() ==> piece_value(parts, i) == #[trigger] os[i],
{
    assert forall|i: int| 0 <= i < parts.len() implies piece_value(parts, i) == #[trigger] os[i] by {
        lemma_opt_decimal(os[i]);
        assert(parts[i] == opt_decimal(os[i]));
    }
}

/// The text after the optional autograd prefix.
spec fn body_text(c: CompileId) -> Seq<char> {
    let ft = opt_decimal(c.frame_id).push('_') + opt_decimal(c.frame_compile_id);
    match c.attempt {
        Some(_) => ft.push('_') + opt_decimal(c.attempt),
        None => ft,
    }
}

/// The pieces that the text after the optional prefix splits into.
spec fn body_pieces(c: CompileId) -> Seq<Seq<char>> {
    let ft = seq![opt_decimal(c.frame_id), opt_decimal(c.frame_compile_id)];
    match c.attempt {
        Some(_) => ft.push(opt_decimal(c.attempt)),
        None => ft,
    }
}

spec fn body_fields(c: CompileId) -> Seq<Option<u32>> {
    match c.attempt {
        Some(_) => seq![c.frame_id, c.frame_compile_id, c.attempt],
        None => seq![c.frame_id, c.frame_compile_id],
    }
}

proof fn lemma_body(c: CompileId)
    ensures
        split_on(body_text(c), '_') == body_pieces(c),
        body_text(c).len() > 0,
        !is_white_space(body_text(c).last()),
        body_text(c)[0] != '!',
        !is_white_space(body_text(c)[0]),
        encode_compile_id(c) == (match c.compiled_autograd_id {
            Some(a) => seq!['!'] + decimal(a as nat) + seq!['_'],
            None => Seq::empty(),
        }) + body_text(c),
{
    let f = c.frame_id;
    let k = c.frame_compile_id;
    let t = c.attempt;
    lemma_opt_decimal(f);
    lemma_opt_decimal(k);
    lemma_opt_decimal(t);
    let body_ft = opt_decimal(f).push('_') + opt_decimal(k);
    lemma_split_first(f);
    lemma_split_step(opt_decimal(f), k);
    assert(split_on(body_ft, '_') =~= seq![opt_decimal(f), opt_decimal(k)]);
    if t is Some {
        lemma_split_step(body_ft, t);
    }
    let body = body_text(c);
    assert(!is_white_space(body.last())) by {
        if t is Some {
            assert(body.last() == opt_decimal(t).last());
        } else if opt_decimal(k).len() > 0 {
            assert(body.last() == opt_decimal(k).last());
        } else {
            assert(body.last() == '_');
        }
    }
    assert(body[0] != '!' && !is_white_space(body[0])) by {
        if opt_decimal(f).len() > 0 {
            assert(body[0] == opt_decimal(f)[0]);
        } else {
            assert(body[0] == '_');
        }
    }
    let tail_text = match t {
        Some(n) => seq!['_'] + decimal(n as nat),
        None => Seq::<char>::empty(),
    };
    assert(body =~= opt_decimal(f) + seq!['_'] + opt_decimal(k) + tail_text);
    let prefix = match c.compiled_autograd_id {
        Some(a) => seq!['!'] + decimal(a as nat) + seq!['_'],
        None => Seq::<char>::empty(),
    };
    assert(encode_compile_id(c) =~= prefix + body);
}

proof fn lemma_round_trip_plain(c: CompileId)
    requires
        c.compiled_autograd_id is None,
    ensures
        decode_compile_id(encode_compile_id(c)) == c,
{
    lemma_body(c);
    let e = encode_compile_id(c);
    assert(e =~= body_text(c));
    lemma_trimmed_unchanged(e);
    let pieces = body_pieces(c);
    let os = body_fields(c);
    lemma_piece_values(pieces, os);
    assert(piece_value(pieces, 0) == os[0]);
    assert(piece_value(pieces, 1) == os[1]);
    if c.attempt is Some {
        assert(piece_value(pieces, 2) == os[2]);
    }
}

proof fn lemma_round_trip_autograd(c: CompileId)
    requires
        c.compiled_autograd_id is Some,
    ensures
        decode_compile_id(encode_compile_id(c)) == c,
{
    let a = c.compiled_autograd_id;
    lemma_body(c);
    lemma_opt_decimal(a);
    let e = encode_compile_id(c);
    let body = body_text(c);
    let full = opt_decimal(a).push('_') + body;
    assert(e =~= seq!['!'] + full);
    assert(e.drop_first() =~= full);
    assert(e.last() == body.last());
    lemma_trimmed_unchanged(e);
    // Each piece of the body becomes a piece of the whole, after the autograd id.
    lemma_split_first(a);
    lemma_split_step(opt_decimal(a), c.frame_id);
    let after_f = opt_decimal(a).push('_') + opt_decimal(c.frame_id);
    lemma_split_step(after_f, c.frame_compile_id);
    let after_k = after_f.push('_') + opt_decimal(c.frame_compile_id);
    if c.attempt is Some {
        lemma_split_step(after_k, c.attempt);
        assert(full =~= after_k.push('_') + opt_decimal(c.attempt));
    } else {
        assert(full =~= after_k);
    }
    let pieces = seq![opt_decimal(a)] + body_pieces(c);
    assert(split_on(full, '_') =~= pieces);
    let os = seq![a] + body_fields(c);
    lemma_piece_values(pieces, os);
    assert(piece_value(pieces, 0) == os[0]);
    assert(piece_value(pieces, 1) == os[1]);
    assert(piece_value(pieces, 2) == os[2]);
    if c.attempt is Some {
        assert(piece_value(pieces, 3) == os[3]);
    }
}

/// Encoding a compile id and decoding the text gives the same compile id back,
/// for every combination of present and absent fields.
pub proof fn lemma_compile_id_round_trip(c: CompileId)
    ensures
        decode_compile_id(encode_compile_id(c)) == c,
{
    if c.compiled_autograd_id is Some {
        lemma_round_trip_autograd(c);
    } else {
        lemma_round_trip_plain(c);
    }
}

/// A canonical compile-id text, one that encoding writes, reads back to a
/// compile id that encodes to the same text; together with the round trip
/// above, encoding and decoding are inverse on canonical texts.
pub proof fn lemma_canonical_text_round_trip(s: Seq<char>, c: CompileId)
    requires
        s == encode_compile_id(c),
    ensures
        encode_compile_id(decode_compile_id(s)) == s,
        decode_compile_id(s) == c,
{
    lemma_compile_id_round_trip(c);
}

} // verus!
