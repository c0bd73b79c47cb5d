//! Properties of the decoders, stated and proved over the same spec
//! functions that the executable contracts use.

use vstd::prelude::*;

use crate::alias_lookup;
use crate::lemma_field_pos_bounds;
use crate::lemma_first_index_of;
use crate::numeric::lemma_digits_of_value;
use crate::numeric::spec_digits_of;
use crate::numeric::spec_parse_u64;
use crate::spec_after_rest_message;
use crate::spec_bool_read;
use crate::spec_canonical_name;
use crate::spec_char_of;
use crate::spec_desc;
use crate::spec_field_pos;
use crate::spec_field_visit;
use crate::spec_rest_field;
use crate::spec_required_message;
use crate::spec_seq_read;
use crate::spec_short;
use crate::spec_short_form;
use crate::spec_str_read;
use crate::ConfigView;
use crate::DecoderView;
use crate::first_index_of;

verus! {

/// One boolean field of a record: the field is visited, then read as a
/// presence flag; a failed visit short-circuits.
pub open spec fn spec_bool_field_step(v: DecoderView, name: Seq<char>) -> (
    Result<bool, Seq<char>>,
    DecoderView,
) {
    let visit = spec_field_visit(v, name);
    if visit.0 is Ok {
        spec_bool_read(visit.1)
    } else {
        (Err(visit.0->Err_0), visit.1)
    }
}

/// A record of only boolean fields, decoded in declaration order: the
/// outcome of each field's read, and the decoder left behind.
pub open spec fn spec_decode_bool_fields(v: DecoderView, names: Seq<Seq<char>>) -> (
    Seq<Result<bool, Seq<char>>>,
    DecoderView,
)
    decreases names.len(),
{
    if names.len() == 0 {
        (Seq::empty(), v)
    } else {
        let step = spec_bool_field_step(v, names[0]);
        let rest = spec_decode_bool_fields(step.1, names.drop_first());
        (seq![step.0] + rest.0, rest.1)
    }
}

/// With no tokens, a record of only boolean fields decodes successfully and
/// every field is false: each visit succeeds and each boolean read returns
/// false, and the token sequence stays empty.
pub proof fn lemma_all_bool_fields_false(v: DecoderView, names: Seq<Seq<char>>)
    requires
        v.source.len() == 0,
        !v.done,
    ensures
        spec_decode_bool_fields(v, names).0 =~= Seq::new(
            names.len(),
            |i: int| Ok::<bool, Seq<char>>(false),
        ),
        spec_decode_bool_fields(v, names).1.source == v.source,
        spec_decode_bool_fields(v, names).1.done == v.done,
    decreases names.len(),
{
    if names.len() > 0 {
        let step = spec_bool_field_step(v, names[0]);
        let visited = spec_field_visit(v, names[0]).1;
        assert(first_index_of(visited.source, spec_canonical_name(names[0])) is None);
        match alias_lookup(visited.config.aliases, names[0]) {
            Some(a) => {
                assert(first_index_of(visited.source, spec_short_form(a)) is None);
            },
            None => {},
        }
        assert(step.0 == Ok::<bool, Seq<char>>(false));
        assert(step.1.source.len() == 0 && !step.1.done);
        lemma_all_bool_fields_false(step.1, names.drop_first());
        assert(spec_decode_bool_fields(v, names).0 =~= Seq::new(
            names.len(),
            |i: int| Ok::<bool, Seq<char>>(false),
        ));
    }
}

/// A mandatory string field whose flag appears nowhere in the token
/// sequence — neither as its canonical long form nor as its registered short
/// form — fails with a "required" error naming the canonical long form, and
/// consumes nothing.
pub proof fn lemma_missing_required_field(v: DecoderView)
    requires
        v.state is Processing,
        v.current_field is Some,
        forall|j: int|
            0 <= j < v.source.len() ==> v.source[j] != spec_canonical_name(v.current_field->0),
        (alias_lookup(v.config.aliases, v.current_field->0) matches Some(a) ==> forall|j: int|
            0 <= j < v.source.len() ==> v.source[j] != spec_short_form(a)),
    ensures
        spec_str_read(v).0 == Err::<Seq<char>, Seq<char>>(
            spec_required_message(v.current_field->0),
        ),
        spec_str_read(v).1 == v,
{
    let field = v.current_field->0;
    lemma_first_index_of(v.source, spec_canonical_name(field));
    assert(first_index_of(v.source, spec_canonical_name(field)) is None);
    match alias_lookup(v.config.aliases, field) {
        Some(a) => {
            lemma_first_index_of(v.source, spec_short_form(a));
            assert(first_index_of(v.source, spec_short_form(a)) is None);
        },
        None => {},
    }
}

/// Round trip, long form: with the token sequence `--field-name <value>`,
/// the string read yields the value back and consumes both tokens.
pub proof fn lemma_round_trip_str(v: DecoderView, value: Seq<char>)
    requires
        v.state is Processing,
        v.current_field is Some,
        v.source =~= seq![spec_canonical_name(v.current_field->0), value],
    ensures
        spec_str_read(v).0 == Ok::<Seq<char>, Seq<char>>(value),
        spec_str_read(v).1 == (DecoderView { source: Seq::empty(), ..v }),
{
    let field = v.current_field->0;
    let canon = spec_canonical_name(field);
    assert(v.source[0] == canon);
    assert(first_index_of(v.source, canon) == Some(0int));
    assert(spec_field_pos(v.source, v.config.aliases, field) == Some(0int));
    assert(v.source.remove(0).remove(0) =~= Seq::<Seq<char>>::empty());
}

/// Round trip, short form: with the field's registered alias `a`, the token
/// sequence `-a <value>` decodes the same way — long and short forms are
/// interchangeable — provided the operand is not spelled exactly like the
/// field's own canonical long form.
pub proof fn lemma_round_trip_str_alias(v: DecoderView, a: char, value: Seq<char>)
    requires
        v.state is Processing,
        v.current_field is Some,
        alias_lookup(v.config.aliases, v.current_field->0) == Some(a),
        value != spec_canonical_name(v.current_field->0),
        v.source =~= seq![spec_short_form(a), value],
    ensures
        spec_str_read(v).0 == Ok::<Seq<char>, Seq<char>>(value),
        spec_str_read(v).1 == (DecoderView { source: Seq::empty(), ..v }),
{
    let field = v.current_field->0;
    let canon = spec_canonical_name(field);
    if v.source[0] == canon {
        assert(first_index_of(v.source, canon) == Some(0int));
        assert(spec_field_pos(v.source, v.config.aliases, field) == Some(0int));
    } else {
        let rest = v.source.drop_first();
        assert(rest =~= seq![value]);
        assert(rest.drop_first() =~= Seq::<Seq<char>>::empty());
        assert(first_index_of(rest.drop_first(), canon) is None);
        assert(first_index_of(rest, canon) is None);
        assert(first_index_of(v.source, canon) is None);
        assert(v.source[0] == spec_short_form(a));
        assert(first_index_of(v.source, spec_short_form(a)) == Some(0int));
        assert(spec_field_pos(v.source, v.config.aliases, field) == Some(0int));
    }
    assert(v.source.remove(0).remove(0) =~= Seq::<Seq<char>>::empty());
}

/// Round trip for integer fields: the decimal spelling of any value converts
/// back to exactly that value, so decoding `--field-name <digits>` yields the
/// number whose digits were written.
pub proof fn lemma_round_trip_uint(v: DecoderView, n: u64)
    requires
        v.state is Processing,
        v.current_field is Some,
        v.source =~= seq![spec_canonical_name(v.current_field->0), spec_digits_of(n as nat)],
    ensures
        spec_str_read(v).0 == Ok::<Seq<char>, Seq<char>>(spec_digits_of(n as nat)),
        spec_parse_u64(spec_digits_of(n as nat)) == Some(n),
        spec_str_read(v).1 == (DecoderView { source: Seq::empty(), ..v }),
{
    lemma_round_trip_str(v, spec_digits_of(n as nat));
    lemma_digits_of_value(n as nat);
}

/// Round trip for integer fields through the short form: the alias decodes
/// the same digits to the same value, with no side condition, since a digit
/// string is never spelled like a long flag.
pub proof fn lemma_round_trip_uint_alias(v: DecoderView, a: char, n: u64)
    requires
        v.state is Processing,
        v.current_field is Some,
        alias_lookup(v.config.aliases, v.current_field->0) == Some(a),
        v.source =~= seq![spec_short_form(a), spec_digits_of(n as nat)],
    ensures
        spec_str_read(v).0 == Ok::<Seq<char>, Seq<char>>(spec_digits_of(n as nat)),
        spec_parse_u64(spec_digits_of(n as nat)) == Some(n),
        spec_str_read(v).1 == (DecoderView { source: Seq::empty(), ..v }),
{
    lemma_digits_of_value(n as nat);
    let digits = spec_digits_of(n as nat);
    let canon = spec_canonical_name(v.current_field->0);
    if digits == canon {
        assert(crate::numeric::is_digit(digits[0]));
        assert(canon[0] == '-');
        assert(false);
    }
    lemma_round_trip_str_alias(v, a, digits);
}

/// Round trip for character fields: a one-character operand converts back to
/// exactly that character.
pub proof fn lemma_round_trip_char(v: DecoderView, c: char)
    requires
        v.state is Processing,
        v.current_field is Some,
        v.source =~= seq![spec_canonical_name(v.current_field->0), seq![c]],
    ensures
        spec_str_read(v).0 == Ok::<Seq<char>, Seq<char>>(seq![c]),
        spec_char_of(seq![c]) == Ok::<char, Seq<char>>(c),
        spec_str_read(v).1 == (DecoderView { source: Seq::empty(), ..v }),
{
    lemma_round_trip_str(v, seq![c]);
}

/// Consuming a matched flag-with-value removes exactly two tokens (the flag
/// and its operand); consuming a matched boolean flag removes exactly one;
/// reads that match nothing, or fail, remove nothing.
pub proof fn lemma_consumption_counts(v: DecoderView)
    requires
        v.state is Processing,
        v.current_field is Some,
    ensures
        ({
            let p = spec_field_pos(v.source, v.config.aliases, v.current_field->0);
            &&& (p is Some ==> spec_bool_read(v).1.source.len() == v.source.len() - 1)
            &&& (p is None ==> spec_bool_read(v).1.source == v.source)
            &&& ((p matches Some(i) && i + 1 < v.source.len()) ==> spec_str_read(
                v,
            ).1.source.len() == v.source.len() - 2)
            &&& ((p is None || (p matches Some(i) && i + 1 >= v.source.len()))
                ==> spec_str_read(v).1.source == v.source)
        }),
{
    lemma_field_pos_bounds(v.source, v.config.aliases, v.current_field->0);
}

/// The alias table behaves as a map: a registration answers for its own
/// name and leaves every other name as it was.
pub proof fn lemma_alias_lookup_push(
    aliases: Seq<(Seq<char>, char)>,
    name: Seq<char>,
    c: char,
    k: Seq<char>,
)
    ensures
        alias_lookup(aliases.push((name, c)), k) == if k == name {
            Some(c)
        } else {
            alias_lookup(aliases, k)
        },
{
    assert(aliases.push((name, c)).drop_last() =~= aliases);
    assert(aliases.push((name, c)).last() == (name, c));
}

/// Each configuration operation touches only its own component, and a later
/// registration for the same name wins: every accessor reflects exactly the
/// last value set for it.
pub proof fn lemma_config_last_write_wins(
    v: ConfigView,
    name: Seq<char>,
    c: char,
    other: Seq<char>,
    d: Seq<char>,
    rf: Seq<char>,
)
    ensures
        alias_lookup(spec_short(v, name, c).aliases, name) == Some(c),
        other != name ==> alias_lookup(spec_short(v, name, c).aliases, other) == alias_lookup(
            v.aliases,
            other,
        ),
        spec_short(v, name, c).description == v.description,
        spec_short(v, name, c).rest_field == v.rest_field,
        spec_desc(v, d).description == Some(d),
        spec_desc(v, d).aliases == v.aliases,
        spec_desc(v, d).rest_field == v.rest_field,
        spec_rest_field(v, rf).rest_field == rf,
        spec_rest_field(v, rf).aliases == v.aliases,
        spec_rest_field(v, rf).description == v.description,
{
    lemma_alias_lookup_push(v.aliases, name, c, name);
    lemma_alias_lookup_push(v.aliases, name, c, other);
}

/// Configuration operations are order-independent: operations on different
/// components commute outright; alias registrations for different names
/// commute up to lookup; and for the same name the last registration wins,
/// whatever was registered before.
pub proof fn lemma_config_order_independent(
    v: ConfigView,
    n1: Seq<char>,
    c1: char,
    n2: Seq<char>,
    c2: char,
    d: Seq<char>,
    rf: Seq<char>,
)
    ensures
        spec_desc(spec_rest_field(v, rf), d) == spec_rest_field(spec_desc(v, d), rf),
        spec_desc(spec_short(v, n1, c1), d) == spec_short(spec_desc(v, d), n1, c1),
        spec_rest_field(spec_short(v, n1, c1), rf) == spec_short(spec_rest_field(v, rf), n1, c1),
        n1 != n2 ==> forall|k: Seq<char>|
            alias_lookup(#[trigger] spec_short(spec_short(v, n1, c1), n2, c2).aliases, k)
                == alias_lookup(spec_short(spec_short(v, n2, c2), n1, c1).aliases, k),
        forall|k: Seq<char>|
            alias_lookup(#[trigger] spec_short(spec_short(v, n1, c1), n1, c2).aliases, k)
                == alias_lookup(spec_short(v, n1, c2).aliases, k),
{
    if n1 != n2 {
        assert forall|k: Seq<char>|
            alias_lookup(#[trigger] spec_short(spec_short(v, n1, c1), n2, c2).aliases, k)
                == alias_lookup(spec_short(spec_short(v, n2, c2), n1, c1).aliases, k) by {
            lemma_alias_lookup_push(spec_short(v, n1, c1).aliases, n2, c2, k);
            lemma_alias_lookup_push(v.aliases, n1, c1, k);
            lemma_alias_lookup_push(spec_short(v, n2, c2).aliases, n1, c1, k);
            lemma_alias_lookup_push(v.aliases, n2, c2, k);
        }
    }
    assert forall|k: Seq<char>|
        alias_lookup(#[trigger] spec_short(spec_short(v, n1, c1), n1, c2).aliases, k)
            == alias_lookup(spec_short(v, n1, c2).aliases, k) by {
        lemma_alias_lookup_push(spec_short(v, n1, c1).aliases, n1, c2, k);
        lemma_alias_lookup_push(v.aliases, n1, c1, k);
        lemma_alias_lookup_push(v.aliases, n1, c2, k);
    }
}

/// Once the rest field has completed, any further field visit fails fast,
/// whatever the field's name and whatever tokens remain.
pub proof fn lemma_no_fields_after_rest(v: DecoderView, name: Seq<char>)
    requires
        v.done,
    ensures
        spec_field_visit(v, name).0 == Err::<(), Seq<char>>(
            spec_after_rest_message(v.config.rest_field),
        ),
        spec_field_visit(v, name).1 == v,
{
}

/// The rest field must be the last field visited: a sequence read of the
/// designated rest field succeeds and marks the pass done, so the very next
/// field visit fails, regardless of the token contents.
pub proof fn lemma_rest_field_is_last(v: DecoderView, name: Seq<char>)
    requires
        v.current_field is Some,
        v.current_field->0 == v.config.rest_field,
    ensures
        spec_seq_read(v).0 == Ok::<Seq<Seq<char>>, Seq<char>>(v.source),
        spec_seq_read(v).1.done,
        spec_field_visit(spec_seq_read(v).1, name).0 == Err::<(), Seq<char>>(
            spec_after_rest_message(v.config.rest_field),
        ),
{
}

} // verus!

