//! The canonical JSON text determines what it stands for.
//!
//! A value's text is followed by a comma or a closing bracket. Two texts are
//! separable if neither can be mistaken for the beginning of the other there, so
//! that a text built of separable parts can be taken apart again.

use vstd::prelude::*;
use vstd::utf8::{encode_utf8_decode_utf8, is_ascii_chars_encode_utf8};

use crate::book::BookState;
use crate::cycles::{
    ClearingLeg, ClearingObligation, CycleStatus, CycleView, NettingCycle, NettingMode,
    NettingProposal, ProposalView,
};
use crate::defaults::{
    CaseView, DefaultCase, DefaultEvidence, DefaultResolution, DefaultSourceKind, ResolutionView,
    WaterfallDraw,
};
use crate::guarantees::{
    ConfidentialGuaranteeFacility, ConfidentialGuaranteeHold, GuaranteeFacility,
    GuaranteeFacilityStatus, GuaranteeHold, GuaranteeHoldStatus,
};
use crate::ident::{ascending, lemma_ascending_exists, Identifier};
use crate::json::{
    decimal, hex, json_array, json_bytes, json_items, json_member, json_object, json_slot,
    lemma_decimal_nonempty, lemma_hex_injective, lemma_hex_shape, quoted,
};
use crate::members::{
    CollateralLot, CollateralStatus, EligibilityAttestation, MarginAccount, Participant,
    ParticipantStatus,
};
use crate::snapshot::{ids_text, optional_text, set_text, table_text, Encoded};
use crate::transcript::bytes_of;

verus! {

/// Whether a byte ends the value before it: a comma or a closing bracket.
pub open spec fn ends_value(byte: u8) -> bool {
    byte == 44 || byte == 93 || byte == 125
}

/// Whether a text is the beginning of a longer one, right before a byte that
/// ends a value.
pub open spec fn runs_on(short: Seq<u8>, long: Seq<u8>) -> bool {
    &&& short.len() < long.len()
    &&& long.take(short.len() as int) == short
    &&& ends_value(long[short.len() as int])
}

/// Whether neither text can be mistaken for the beginning of the other.
pub open spec fn separable(a: Seq<u8>, b: Seq<u8>) -> bool {
    !runs_on(a, b) && !runs_on(b, a)
}

/// Whether a text begins like a value.
pub open spec fn starts_value(text: Seq<u8>) -> bool {
    text.len() > 0 && !ends_value(text[0])
}

proof fn lemma_split(a: Seq<u8>, b: Seq<u8>, after_a: Seq<u8>, after_b: Seq<u8>)
    requires
        separable(a, b),
        after_a.len() > 0 && ends_value(after_a[0]),
        after_b.len() > 0 && ends_value(after_b[0]),
        a + after_a == b + after_b,
    ensures
        a == b,
        after_a == after_b,
{
    let all = a + after_a;
    if a.len() < b.len() {
        assert(all[a.len() as int] == after_a[0]);
        assert(all[a.len() as int] == b[a.len() as int]);
        assert(b.take(a.len() as int) =~= a) by {
            assert forall|i: int| 0 <= i < a.len() implies b[i] == a[i] by {
                assert(all[i] == a[i]);
                assert((b + after_b)[i] == b[i]);
            }
        }
        assert(runs_on(a, b));
    } else if b.len() < a.len() {
        assert((b + after_b)[b.len() as int] == after_b[0]);
        assert(all[b.len() as int] == a[b.len() as int]);
        assert(a.take(b.len() as int) =~= b) by {
            assert forall|i: int| 0 <= i < b.len() implies a[i] == b[i] by {
                assert(all[i] == a[i]);
                assert((b + after_b)[i] == b[i]);
            }
        }
        assert(runs_on(b, a));
    } else {
        assert(a =~= all.take(a.len() as int));
        assert(b =~= (b + after_b).take(b.len() as int));
        assert(after_a =~= all.skip(a.len() as int));
        assert(after_b =~= (b + after_b).skip(b.len() as int));
    }
}

proof fn lemma_items_front(items: Seq<Seq<u8>>)
    requires
        items.len() >= 2,
    ensures
        json_items(items) == items[0] + (seq![44u8] + json_items(items.drop_first())),
    decreases items.len(),
{
    if items.len() == 2 {
        assert(items.drop_last().len() == 1);
        assert(items.drop_first().len() == 1);
        assert(json_items(items.drop_last()) == items[0]);
        assert(json_items(items.drop_first()) == items[1]);
        assert(json_items(items) =~= items[0] + (seq![44u8] + json_items(items.drop_first())));
    } else {
        lemma_items_front(items.drop_last());
        assert(items.drop_last().drop_first() =~= items.drop_first().drop_last());
        assert(json_items(items.drop_first()) == json_items(items.drop_first().drop_last())
            + seq![44u8] + items.last());
        assert(json_items(items) =~= items[0] + (seq![44u8] + json_items(items.drop_first())));
    }
}

/// Whether two lists of texts can be told apart item by item.
spec fn lists_separable(a: Seq<Seq<u8>>, b: Seq<Seq<u8>>) -> bool {
    &&& forall|i: int| 0 <= i < a.len() ==> starts_value(#[trigger] a[i])
    &&& forall|i: int| 0 <= i < b.len() ==> starts_value(#[trigger] b[i])
    &&& forall|i: int|
        0 <= i < a.len() && 0 <= i < b.len() ==> separable(#[trigger] a[i], #[trigger] b[i])
}

/// What follows the first item of a list up to its end.
spec fn items_tail(items: Seq<Seq<u8>>, close: u8, rest: Seq<u8>) -> Seq<u8> {
    if items.len() == 1 {
        seq![close] + rest
    } else {
        seq![44u8] + (json_items(items.drop_first()) + seq![close] + rest)
    }
}

proof fn lemma_items_tail(items: Seq<Seq<u8>>, close: u8, rest: Seq<u8>)
    requires
        items.len() > 0,
    ensures
        json_items(items) + seq![close] + rest == items[0] + items_tail(items, close, rest),
{
    if items.len() > 1 {
        lemma_items_front(items);
    }
    assert(json_items(items) + seq![close] + rest =~= items[0] + items_tail(items, close, rest));
}

proof fn lemma_items(
    a: Seq<Seq<u8>>,
    b: Seq<Seq<u8>>,
    close: u8,
    rest_a: Seq<u8>,
    rest_b: Seq<u8>,
)
    requires
        close == 93 || close == 125,
        lists_separable(a, b),
        json_items(a) + seq![close] + rest_a == json_items(b) + seq![close] + rest_b,
    ensures
        a == b,
        rest_a == rest_b,
    decreases a.len(),
{
    let all_a = json_items(a) + seq![close] + rest_a;
    let all_b = json_items(b) + seq![close] + rest_b;
    if a.len() == 0 || b.len() == 0 {
        if a.len() > 0 {
            lemma_items_tail(a, close, rest_a);
            assert(starts_value(a[0]));
            assert(all_a[0] == a[0][0]);
            assert(all_b[0] == close);
            assert(false);
        }
        if b.len() > 0 {
            lemma_items_tail(b, close, rest_b);
            assert(starts_value(b[0]));
            assert(all_b[0] == b[0][0]);
            assert(all_a[0] == close);
            assert(false);
        }
        assert(a =~= b);
        assert(rest_a =~= all_a.skip(1));
        assert(rest_b =~= all_b.skip(1));
    } else {
        lemma_items_tail(a, close, rest_a);
        lemma_items_tail(b, close, rest_b);
        let tail_a = items_tail(a, close, rest_a);
        let tail_b = items_tail(b, close, rest_b);
        assert(separable(a[0], b[0]));
        lemma_split(a[0], b[0], tail_a, tail_b);
        assert(tail_a[0] == tail_b[0]);
        if a.len() == 1 {
            assert(b.len() == 1);
            assert(a =~= b);
            assert(rest_a =~= tail_a.skip(1));
            assert(rest_b =~= tail_b.skip(1));
        } else {
            assert(b.len() > 1);
            let next_a = a.drop_first();
            let next_b = b.drop_first();
            assert(json_items(next_a) + seq![close] + rest_a =~= tail_a.skip(1));
            assert(json_items(next_b) + seq![close] + rest_b =~= tail_b.skip(1));
            assert(lists_separable(next_a, next_b)) by {
                assert forall|i: int| 0 <= i < next_a.len() implies starts_value(
                    #[trigger] next_a[i],
                ) by {
                    assert(next_a[i] == a[i + 1]);
                }
                assert forall|i: int| 0 <= i < next_b.len() implies starts_value(
                    #[trigger] next_b[i],
                ) by {
                    assert(next_b[i] == b[i + 1]);
                }
                assert forall|i: int|
                    0 <= i < next_a.len() && 0 <= i < next_b.len() implies separable(
                    #[trigger] next_a[i],
                    #[trigger] next_b[i],
                ) by {
                    assert(next_a[i] == a[i + 1] && next_b[i] == b[i + 1]);
                }
            }
            lemma_items(next_a, next_b, close, rest_a, rest_b);
            assert(a =~= seq![a[0]] + next_a);
            assert(b =~= seq![b[0]] + next_b);
        }
    }
}

/// The items of a list between brackets.
spec fn bracketed(open: u8, items: Seq<Seq<u8>>, close: u8) -> Seq<u8> {
    seq![open] + json_items(items) + seq![close]
}

proof fn lemma_bracketed_prefix(
    open: u8,
    a: Seq<Seq<u8>>,
    b: Seq<Seq<u8>>,
    close: u8,
    rest: Seq<u8>,
)
    requires
        close == 93 || close == 125,
        lists_separable(a, b),
        bracketed(open, a, close) + rest == bracketed(open, b, close),
    ensures
        a == b,
        rest.len() == 0,
{
    let none = Seq::<u8>::empty();
    let all = bracketed(open, a, close) + rest;
    assert(json_items(a) + seq![close] + rest =~= all.skip(1));
    assert(json_items(b) + seq![close] + none =~= bracketed(open, b, close).skip(1));
    lemma_items(a, b, close, rest, none);
}

proof fn lemma_bracketed(open: u8, a: Seq<Seq<u8>>, b: Seq<Seq<u8>>, close: u8)
    requires
        !ends_value(open),
        close == 93 || close == 125,
        lists_separable(a, b),
    ensures
        starts_value(bracketed(open, a, close)),
        separable(bracketed(open, a, close), bracketed(open, b, close)),
        bracketed(open, a, close) == bracketed(open, b, close) ==> a == b,
{
    let x = bracketed(open, a, close);
    let y = bracketed(open, b, close);
    assert(x[0] == open);
    if runs_on(x, y) {
        let rest = y.skip(x.len() as int);
        assert(x + rest =~= y);
        lemma_bracketed_prefix(open, a, b, close, rest);
    }
    if runs_on(y, x) {
        let rest = x.skip(y.len() as int);
        assert(y + rest =~= x);
        lemma_bracketed_prefix(open, b, a, close, rest);
    }
    if x == y {
        let none = Seq::<u8>::empty();
        assert(x + none =~= y);
        lemma_bracketed_prefix(open, a, b, close, none);
    }
}

proof fn lemma_array(a: Seq<Seq<u8>>, b: Seq<Seq<u8>>)
    requires
        lists_separable(a, b),
    ensures
        starts_value(json_array(a)),
        json_array(a)[0] == 91,
        separable(json_array(a), json_array(b)),
        json_array(a) == json_array(b) ==> a == b,
{
    assert(json_array(a) == bracketed(91, a, 93));
    assert(json_array(b) == bracketed(91, b, 93));
    lemma_bracketed(91, a, b, 93);
}

proof fn lemma_member(name_a: Seq<u8>, a: Seq<u8>, name_b: Seq<u8>, b: Seq<u8>)
    requires
        name_a.len() == name_b.len(),
        name_a == name_b ==> separable(a, b),
    ensures
        starts_value(json_member(name_a, a)),
        separable(json_member(name_a, a), json_member(name_b, b)),
        json_member(name_a, a) == json_member(name_b, b) ==> name_a == name_b && a == b,
{
    reveal(json_member);
    let x = json_member(name_a, a);
    let y = json_member(name_b, b);
    let at = (name_a.len() + 3) as int;
    assert(x.subrange(1, at - 2) =~= name_a);
    assert(y.subrange(1, at - 2) =~= name_b);
    assert(x.skip(at) =~= a);
    assert(y.skip(at) =~= b);
    if runs_on(x, y) {
        assert(name_a =~= name_b) by {
            assert(y.take(x.len() as int).subrange(1, at - 2) =~= y.subrange(1, at - 2));
        }
        assert(b.take(a.len() as int) =~= y.take(x.len() as int).skip(at));
        assert(b[a.len() as int] == y[x.len() as int]);
        assert(runs_on(a, b));
    }
    if runs_on(y, x) {
        assert(name_a =~= name_b) by {
            assert(x.take(y.len() as int).subrange(1, at - 2) =~= x.subrange(1, at - 2));
        }
        assert(a.take(b.len() as int) =~= x.take(y.len() as int).skip(at));
        assert(a[b.len() as int] == x[y.len() as int]);
        assert(runs_on(b, a));
    }
}

/// Whether two objects have the same members in the same order, with values that
/// can be told apart.
spec fn members_separable(a: Seq<(Seq<u8>, Seq<u8>)>, b: Seq<(Seq<u8>, Seq<u8>)>) -> bool {
    &&& a.len() == b.len()
    &&& forall|i: int|
        0 <= i < a.len() ==> (#[trigger] a[i]).0 == b[i].0 && separable(a[i].1, b[i].1)
}

proof fn lemma_object(a: Seq<(Seq<u8>, Seq<u8>)>, b: Seq<(Seq<u8>, Seq<u8>)>)
    requires
        members_separable(a, b),
    ensures
        starts_value(json_object(a)),
        json_object(a)[0] == 123,
        separable(json_object(a), json_object(b)),
        json_object(a) == json_object(b) ==> a == b,
{
    let text_of = |m: (Seq<u8>, Seq<u8>)| json_member(m.0, m.1);
    let items_a = a.map_values(text_of);
    let items_b = b.map_values(text_of);
    assert forall|i: int| 0 <= i < items_a.len() implies starts_value(#[trigger] items_a[i]) by {
        lemma_member(a[i].0, a[i].1, a[i].0, a[i].1);
    }
    assert forall|i: int| 0 <= i < items_b.len() implies starts_value(#[trigger] items_b[i]) by {
        lemma_member(b[i].0, b[i].1, b[i].0, b[i].1);
    }
    assert forall|i: int| 0 <= i < a.len() && 0 <= i < b.len() implies separable(
        #[trigger] items_a[i],
        #[trigger] items_b[i],
    ) by {
        assert(a[i].0 == b[i].0);
        lemma_member(a[i].0, a[i].1, b[i].0, b[i].1);
    }
    assert(json_object(a) == bracketed(123, items_a, 125));
    assert(json_object(b) == bracketed(123, items_b, 125));
    lemma_bracketed(123, items_a, items_b, 125);
    if json_object(a) == json_object(b) {
        assert forall|i: int| 0 <= i < a.len() implies a[i] == b[i] by {
            assert(items_a[i] == items_b[i]);
            lemma_member(a[i].0, a[i].1, b[i].0, b[i].1);
        }
        assert(a =~= b);
    }
}

/// Texts that begin differently are separable.
proof fn lemma_first_differs(a: Seq<u8>, b: Seq<u8>)
    requires
        a.len() > 0,
        b.len() > 0,
        a[0] != b[0],
    ensures
        separable(a, b),
        a != b,
{
    if runs_on(a, b) {
        assert(b.take(a.len() as int)[0] == b[0]);
    }
    if runs_on(b, a) {
        assert(a.take(b.len() as int)[0] == a[0]);
    }
}

proof fn lemma_decimal_digits(n: nat)
    ensures
        decimal(n).len() > 0,
        forall|i: int| 0 <= i < decimal(n).len() ==> 48 <= #[trigger] decimal(n)[i] <= 57,
    decreases n,
{
    if n >= 10 {
        lemma_decimal_digits(n / 10);
    }
}

proof fn lemma_decimal_injective(a: nat, b: nat)
    requires
        decimal(a) == decimal(b),
    ensures
        a == b,
    decreases a,
{
    assert(decimal(a).last() == decimal(b).last());
    assert(decimal(a).last() == (48 + a % 10) as u8);
    assert(decimal(b).last() == (48 + b % 10) as u8);
    lemma_decimal_nonempty(a / 10);
    lemma_decimal_nonempty(b / 10);
    if a >= 10 && b >= 10 {
        assert(decimal(a).drop_last() =~= decimal(a / 10));
        assert(decimal(b).drop_last() =~= decimal(b / 10));
        lemma_decimal_injective(a / 10, b / 10);
    } else if a >= 10 {
        assert(decimal(a).len() == decimal(a / 10).len() + 1);
        assert(decimal(b).len() == 1);
    } else if b >= 10 {
        assert(decimal(b).len() == decimal(b / 10).len() + 1);
        assert(decimal(a).len() == 1);
    }
}

proof fn lemma_number(a: nat, b: nat)
    ensures
        starts_value(decimal(a)),
        separable(decimal(a), decimal(b)),
        decimal(a) == decimal(b) ==> a == b,
{
    lemma_decimal_digits(a);
    lemma_decimal_digits(b);
    if decimal(a) == decimal(b) {
        lemma_decimal_injective(a, b);
    }
}

proof fn lemma_bytes(a: Seq<u8>, b: Seq<u8>)
    ensures
        starts_value(json_bytes(a)),
        json_bytes(a)[0] == 91,
        separable(json_bytes(a), json_bytes(b)),
        json_bytes(a) == json_bytes(b) ==> a == b,
{
    reveal(json_bytes);
    let items_a = a.map_values(|x: u8| decimal(x as nat));
    let items_b = b.map_values(|x: u8| decimal(x as nat));
    assert(lists_separable(items_a, items_b)) by {
        assert forall|i: int| 0 <= i < items_a.len() implies starts_value(
            #[trigger] items_a[i],
        ) by {
            lemma_number(a[i] as nat, a[i] as nat);
        }
        assert forall|i: int| 0 <= i < items_b.len() implies starts_value(
            #[trigger] items_b[i],
        ) by {
            lemma_number(b[i] as nat, b[i] as nat);
        }
        assert forall|i: int| 0 <= i < items_a.len() && 0 <= i < items_b.len() implies separable(
            #[trigger] items_a[i],
            #[trigger] items_b[i],
        ) by {
            lemma_number(a[i] as nat, b[i] as nat);
        }
    }
    lemma_array(items_a, items_b);
    if json_bytes(a) == json_bytes(b) {
        assert forall|i: int| 0 <= i < a.len() implies a[i] == b[i] by {
            assert(items_a[i] == items_b[i]);
            lemma_number(a[i] as nat, b[i] as nat);
        }
        assert(a =~= b);
    }
}

proof fn lemma_same_array(a: Identifier, b: Identifier)
    requires
        a@ == b@,
    ensures
        a == b,
{
    assert(a =~= b) by {
        assert forall|i: int| 0 <= i < 32 implies a[i] == b[i] by {
            assert(a@[i] == b@[i]);
        }
    }
}

proof fn lemma_id(a: Identifier, b: Identifier)
    ensures
        starts_value(json_bytes(a@)),
        separable(json_bytes(a@), json_bytes(b@)),
        json_bytes(a@) == json_bytes(b@) ==> a == b,
{
    lemma_bytes(a@, b@);
    if json_bytes(a@) == json_bytes(b@) {
        lemma_same_array(a, b);
    }
}

proof fn lemma_null()
    ensures
        bytes_of("null").len() > 0,
        bytes_of("null")[0] == 110,
{
    reveal_strlit("null");
    is_ascii_chars_encode_utf8("null"@);
}

proof fn lemma_slot(a: Option<Identifier>, b: Option<Identifier>)
    ensures
        starts_value(json_slot(a)),
        separable(json_slot(a), json_slot(b)),
        json_slot(a) == json_slot(b) ==> a == b,
{
    lemma_null();
    if a is Some {
        lemma_bytes(a->0@, a->0@);
    }
    if b is Some {
        lemma_bytes(b->0@, b->0@);
    }
    if a is Some && b is Some {
        lemma_id(a->0, b->0);
    } else if a is Some || b is Some {
        lemma_first_differs(json_slot(a), json_slot(b));
    }
}

/// Texts without a byte that ends a value.
spec fn plain(text: Seq<u8>) -> bool {
    &&& text.len() > 0
    &&& forall|i: int| 0 <= i < text.len() ==> !ends_value(#[trigger] text[i])
}

proof fn lemma_plain(a: Seq<u8>, b: Seq<u8>)
    requires
        plain(a),
        plain(b),
    ensures
        starts_value(a),
        separable(a, b),
{
    assert(!ends_value(a[0]));
}

/// A text of ASCII characters without one that ends a value is plain.
proof fn lemma_literal(text: &str)
    requires
        text@.len() > 0,
        forall|i: int| 0 <= i < text@.len() ==> {
            &&& '\0' <= #[trigger] text@[i] <= '\u{7f}'
            &&& text@[i] != ','
            &&& text@[i] != ']'
            &&& text@[i] != '}'
        },
    ensures
        plain(bytes_of(text)),
{
    is_ascii_chars_encode_utf8(text@);
    assert forall|i: int| 0 <= i < bytes_of(text).len() implies !ends_value(
        #[trigger] bytes_of(text)[i],
    ) by {
        assert(text@[i] as u8 == bytes_of(text)[i]);
    }
}

proof fn lemma_literals_differ(a: &str, b: &str, at: int)
    requires
        0 <= at < a@.len(),
        0 <= at < b@.len(),
        a@[at] != b@[at],
    ensures
        bytes_of(a) != bytes_of(b),
{
    encode_utf8_decode_utf8(a@);
    encode_utf8_decode_utf8(b@);
}

proof fn lemma_participant_status(a: ParticipantStatus, b: ParticipantStatus)
    ensures
        starts_value(a.text()),
        separable(a.text(), b.text()),
        a.text() == b.text() ==> a == b,
{
    reveal_strlit("\"active\"");
    reveal_strlit("\"suspended\"");
    reveal_strlit("\"defaulted\"");
    reveal_strlit("\"exited\"");
    lemma_literal("\"active\"");
    lemma_literal("\"suspended\"");
    lemma_literal("\"defaulted\"");
    lemma_literal("\"exited\"");
    lemma_plain(a.text(), b.text());
    lemma_literals_differ("\"active\"", "\"suspended\"", 1);
    lemma_literals_differ("\"active\"", "\"defaulted\"", 1);
    lemma_literals_differ("\"suspended\"", "\"defaulted\"", 1);
    lemma_literals_differ("\"active\"", "\"exited\"", 1);
    lemma_literals_differ("\"suspended\"", "\"exited\"", 1);
    lemma_literals_differ("\"defaulted\"", "\"exited\"", 1);
}

proof fn lemma_collateral_status(a: CollateralStatus, b: CollateralStatus)
    ensures
        starts_value(a.text()),
        separable(a.text(), b.text()),
        a.text() == b.text() ==> a == b,
{
    reveal_strlit("\"available\"");
    reveal_strlit("\"released\"");
    reveal_strlit("\"seized\"");
    lemma_literal("\"available\"");
    lemma_literal("\"released\"");
    lemma_literal("\"seized\"");
    lemma_plain(a.text(), b.text());
    lemma_literals_differ("\"available\"", "\"released\"", 1);
    lemma_literals_differ("\"available\"", "\"seized\"", 1);
    lemma_literals_differ("\"released\"", "\"seized\"", 1);
}

proof fn lemma_netting_mode(a: NettingMode, b: NettingMode)
    ensures
        starts_value(a.text()),
        separable(a.text(), b.text()),
        a.text() == b.text() ==> a == b,
{
    reveal_strlit("\"gross_gross\"");
    reveal_strlit("\"gross_net\"");
    reveal_strlit("\"net_net\"");
    lemma_literal("\"gross_gross\"");
    lemma_literal("\"gross_net\"");
    lemma_literal("\"net_net\"");
    lemma_plain(a.text(), b.text());
    lemma_literals_differ("\"gross_gross\"", "\"gross_net\"", 7);
    lemma_literals_differ("\"gross_gross\"", "\"net_net\"", 1);
    lemma_literals_differ("\"gross_net\"", "\"net_net\"", 1);
}

proof fn lemma_cycle_status(a: CycleStatus, b: CycleStatus)
    ensures
        starts_value(a.text()),
        separable(a.text(), b.text()),
        a.text() == b.text() ==> a == b,
{
    reveal_strlit("\"open\"");
    reveal_strlit("\"closed\"");
    reveal_strlit("\"settled\"");
    lemma_literal("\"open\"");
    lemma_literal("\"closed\"");
    lemma_literal("\"settled\"");
    lemma_plain(a.text(), b.text());
    lemma_literals_differ("\"open\"", "\"closed\"", 1);
    lemma_literals_differ("\"open\"", "\"settled\"", 1);
    lemma_literals_differ("\"closed\"", "\"settled\"", 1);
}

proof fn lemma_guarantee_facility_status(a: GuaranteeFacilityStatus, b: GuaranteeFacilityStatus)
    ensures
        starts_value(a.text()),
        separable(a.text(), b.text()),
        a.text() == b.text() ==> a == b,
{
    reveal_strlit("\"active\"");
    reveal_strlit("\"suspended\"");
    reveal_strlit("\"exhausted\"");
    reveal_strlit("\"closed\"");
    lemma_literal("\"active\"");
    lemma_literal("\"suspended\"");
    lemma_literal("\"exhausted\"");
    lemma_literal("\"closed\"");
    lemma_plain(a.text(), b.text());
    lemma_literals_differ("\"active\"", "\"suspended\"", 1);
    lemma_literals_differ("\"active\"", "\"exhausted\"", 1);
    lemma_literals_differ("\"suspended\"", "\"exhausted\"", 1);
    lemma_literals_differ("\"active\"", "\"closed\"", 1);
    lemma_literals_differ("\"suspended\"", "\"closed\"", 1);
    lemma_literals_differ("\"exhausted\"", "\"closed\"", 1);
}

proof fn lemma_guarantee_hold_status(a: GuaranteeHoldStatus, b: GuaranteeHoldStatus)
    ensures
        starts_value(a.text()),
        separable(a.text(), b.text()),
        a.text() == b.text() ==> a == b,
{
    reveal_strlit("\"reserved\"");
    reveal_strlit("\"bound\"");
    reveal_strlit("\"consumed\"");
    reveal_strlit("\"released\"");
    lemma_literal("\"reserved\"");
    lemma_literal("\"bound\"");
    lemma_literal("\"consumed\"");
    lemma_literal("\"released\"");
    lemma_plain(a.text(), b.text());
    lemma_literals_differ("\"reserved\"", "\"bound\"", 1);
    lemma_literals_differ("\"reserved\"", "\"consumed\"", 1);
    lemma_literals_differ("\"bound\"", "\"consumed\"", 1);
    lemma_literals_differ("\"reserved\"", "\"released\"", 3);
    lemma_literals_differ("\"bound\"", "\"released\"", 1);
    lemma_literals_differ("\"consumed\"", "\"released\"", 1);
}

proof fn lemma_default_source_kind(a: DefaultSourceKind, b: DefaultSourceKind)
    ensures
        starts_value(a.text()),
        separable(a.text(), b.text()),
        a.text() == b.text() ==> a == b,
{
    reveal_strlit("\"defaulter_margin\"");
    reveal_strlit("\"defaulter_fund\"");
    reveal_strlit("\"mutualized_fund\"");
    reveal_strlit("\"ccp_capital\"");
    lemma_literal("\"defaulter_margin\"");
    lemma_literal("\"defaulter_fund\"");
    lemma_literal("\"mutualized_fund\"");
    lemma_literal("\"ccp_capital\"");
    lemma_plain(a.text(), b.text());
    lemma_literals_differ("\"defaulter_margin\"", "\"defaulter_fund\"", 11);
    lemma_literals_differ("\"defaulter_margin\"", "\"mutualized_fund\"", 1);
    lemma_literals_differ("\"defaulter_fund\"", "\"mutualized_fund\"", 1);
    lemma_literals_differ("\"defaulter_margin\"", "\"ccp_capital\"", 1);
    lemma_literals_differ("\"defaulter_fund\"", "\"ccp_capital\"", 1);
    lemma_literals_differ("\"mutualized_fund\"", "\"ccp_capital\"", 1);
}

/// A record whose JSON text determines it, also where more text follows.
pub trait Determined: Encoded {
    /// The texts of two values are separable, and equal only for equal values.
    proof fn lemma_text(a: <Self as View>::V, b: <Self as View>::V)
        requires
            Self::tables_finite(a),
            Self::tables_finite(b),
        ensures
            starts_value(Self::text(a)),
            separable(Self::text(a), Self::text(b)),
            Self::text(a) == Self::text(b) ==> a == b,
    ;
}

impl Determined for u128 {
    proof fn lemma_text(a: u128, b: u128) {
        lemma_number(a as nat, b as nat);
    }
}

proof fn lemma_list<T: Determined>(
    a: Seq<<T as View>::V>,
    b: Seq<<T as View>::V>,
    texts_a: Seq<Seq<u8>>,
    texts_b: Seq<Seq<u8>>,
)
    requires
        forall|i: int| 0 <= i < a.len() ==> T::tables_finite(#[trigger] a[i]),
        forall|i: int| 0 <= i < b.len() ==> T::tables_finite(#[trigger] b[i]),
        texts_a.len() == a.len(),
        texts_b.len() == b.len(),
        forall|i: int| 0 <= i < a.len() ==> #[trigger] texts_a[i] == T::text(a[i]),
        forall|i: int| 0 <= i < b.len() ==> #[trigger] texts_b[i] == T::text(b[i]),
    ensures
        starts_value(json_array(texts_a)),
        separable(json_array(texts_a), json_array(texts_b)),
        json_array(texts_a) == json_array(texts_b) ==> a == b,
{
    assert(lists_separable(texts_a, texts_b)) by {
        assert forall|i: int| 0 <= i < texts_a.len() implies starts_value(
            #[trigger] texts_a[i],
        ) by {
            T::lemma_text(a[i], a[i]);
        }
        assert forall|i: int| 0 <= i < texts_b.len() implies starts_value(
            #[trigger] texts_b[i],
        ) by {
            T::lemma_text(b[i], b[i]);
        }
        assert forall|i: int| 0 <= i < texts_a.len() && 0 <= i < texts_b.len() implies separable(
            #[trigger] texts_a[i],
            #[trigger] texts_b[i],
        ) by {
            T::lemma_text(a[i], b[i]);
        }
    }
    lemma_array(texts_a, texts_b);
    if json_array(texts_a) == json_array(texts_b) {
        assert forall|i: int| 0 <= i < a.len() implies a[i] == b[i] by {
            assert(texts_a[i] == texts_b[i]);
            T::lemma_text(a[i], b[i]);
        }
        assert(a =~= b);
    }
}

proof fn lemma_optional<T: Determined>(a: Option<<T as View>::V>, b: Option<<T as View>::V>)
    requires
        a is Some ==> T::tables_finite(a->0) && T::text(a->0)[0] == 123,
        b is Some ==> T::tables_finite(b->0) && T::text(b->0)[0] == 123,
    ensures
        starts_value(optional_text::<T>(a)),
        separable(optional_text::<T>(a), optional_text::<T>(b)),
        optional_text::<T>(a) == optional_text::<T>(b) ==> a == b,
{
    reveal(optional_text);
    lemma_null();
    if a is Some {
        T::lemma_text(a->0, a->0);
    }
    if b is Some {
        T::lemma_text(b->0, b->0);
    }
    if a is Some && b is Some {
        T::lemma_text(a->0, b->0);
    } else if a is Some || b is Some {
        lemma_first_differs(optional_text::<T>(a), optional_text::<T>(b));
    }
}

proof fn lemma_ids(a: Seq<Identifier>, b: Seq<Identifier>)
    ensures
        starts_value(ids_text(a)),
        separable(ids_text(a), ids_text(b)),
        ids_text(a) == ids_text(b) ==> a == b,
{
    let items_a = a.map_values(|id: Identifier| json_bytes(id@));
    let items_b = b.map_values(|id: Identifier| json_bytes(id@));
    assert(lists_separable(items_a, items_b)) by {
        assert forall|i: int| 0 <= i < items_a.len() implies starts_value(
            #[trigger] items_a[i],
        ) by {
            lemma_id(a[i], a[i]);
        }
        assert forall|i: int| 0 <= i < items_b.len() implies starts_value(
            #[trigger] items_b[i],
        ) by {
            lemma_id(b[i], b[i]);
        }
        assert forall|i: int| 0 <= i < items_a.len() && 0 <= i < items_b.len() implies separable(
            #[trigger] items_a[i],
            #[trigger] items_b[i],
        ) by {
            lemma_id(a[i], b[i]);
        }
    }
    lemma_array(items_a, items_b);
    if ids_text(a) == ids_text(b) {
        assert forall|i: int| 0 <= i < a.len() implies a[i] == b[i] by {
            assert(items_a[i] == items_b[i]);
            lemma_id(a[i], b[i]);
        }
        assert(a =~= b);
    }
}

proof fn lemma_hex_id(a: Identifier, b: Identifier)
    ensures
        hex(a@).len() == 64,
        hex(b@).len() == 64,
        hex(a@) == hex(b@) ==> a == b,
{
    lemma_hex_shape(a@);
    lemma_hex_shape(b@);
    if hex(a@) == hex(b@) {
        lemma_hex_injective(a@, b@);
        lemma_same_array(a, b);
    }
}

proof fn lemma_set(a: Set<Identifier>, b: Set<Identifier>)
    requires
        a.finite(),
        b.finite(),
    ensures
        starts_value(set_text(a)),
        separable(set_text(a), set_text(b)),
        set_text(a) == set_text(b) ==> a == b,
{
    let list_a = ascending(a);
    let list_b = ascending(b);
    let items_a = list_a.map_values(|id: Identifier| quoted(hex(id@)));
    let items_b = list_b.map_values(|id: Identifier| quoted(hex(id@)));
    assert forall|i: int| 0 <= i < items_a.len() implies starts_value(#[trigger] items_a[i])
        && items_a[i].len() == 66 by {
        lemma_hex_id(list_a[i], list_a[i]);
    }
    assert forall|i: int| 0 <= i < items_b.len() implies starts_value(#[trigger] items_b[i])
        && items_b[i].len() == 66 by {
        lemma_hex_id(list_b[i], list_b[i]);
    }
    lemma_array(items_a, items_b);
    if set_text(a) == set_text(b) {
        assert forall|i: int| 0 <= i < list_a.len() implies list_a[i] == list_b[i] by {
            assert(items_a[i] == items_b[i]);
            lemma_hex_id(list_a[i], list_b[i]);
            assert(items_a[i].subrange(1, 65) =~= hex(list_a[i]@));
            assert(items_b[i].subrange(1, 65) =~= hex(list_b[i]@));
        }
        assert(list_a =~= list_b);
        lemma_ascending_exists(a);
        lemma_ascending_exists(b);
    }
}

proof fn lemma_table<T: Determined>(
    a: Map<Identifier, <T as View>::V>,
    b: Map<Identifier, <T as View>::V>,
)
    requires
        a.dom().finite(),
        b.dom().finite(),
        forall|k: Identifier| #[trigger] a.contains_key(k) ==> T::tables_finite(a[k]),
        forall|k: Identifier| #[trigger] b.contains_key(k) ==> T::tables_finite(b[k]),
    ensures
        starts_value(table_text::<T>(a)),
        separable(table_text::<T>(a), table_text::<T>(b)),
        table_text::<T>(a) == table_text::<T>(b) ==> a == b,
{
    reveal(table_text);
    lemma_ascending_exists(a.dom());
    lemma_ascending_exists(b.dom());
    let keys_a = ascending(a.dom());
    let keys_b = ascending(b.dom());
    assert forall|i: int| 0 <= i < keys_a.len() implies a.contains_key(#[trigger] keys_a[i]) by {
        assert(keys_a.to_set().contains(keys_a[i]));
    }
    assert forall|i: int| 0 <= i < keys_b.len() implies b.contains_key(#[trigger] keys_b[i]) by {
        assert(keys_b.to_set().contains(keys_b[i]));
    }
    let members_a = keys_a.map_values(|key: Identifier| (hex(key@), T::text(a[key])));
    let members_b = keys_b.map_values(|key: Identifier| (hex(key@), T::text(b[key])));
    let text_of = |m: (Seq<u8>, Seq<u8>)| json_member(m.0, m.1);
    let items_a = members_a.map_values(text_of);
    let items_b = members_b.map_values(text_of);
    assert forall|i: int| 0 <= i < items_a.len() implies starts_value(#[trigger] items_a[i]) by {
        lemma_entry::<T>(keys_a[i], a[keys_a[i]], keys_a[i], a[keys_a[i]]);
    }
    assert forall|i: int| 0 <= i < items_b.len() implies starts_value(#[trigger] items_b[i]) by {
        lemma_entry::<T>(keys_b[i], b[keys_b[i]], keys_b[i], b[keys_b[i]]);
    }
    assert forall|i: int| 0 <= i < items_a.len() && 0 <= i < items_b.len() implies separable(
        #[trigger] items_a[i],
        #[trigger] items_b[i],
    ) by {
        lemma_entry::<T>(keys_a[i], a[keys_a[i]], keys_b[i], b[keys_b[i]]);
    }
    assert(table_text::<T>(a) == bracketed(123, items_a, 125));
    assert(table_text::<T>(b) == bracketed(123, items_b, 125));
    lemma_bracketed(123, items_a, items_b, 125);
    if table_text::<T>(a) == table_text::<T>(b) {
        assert forall|i: int| 0 <= i < keys_a.len() implies #[trigger] keys_a[i] == keys_b[i]
            && a[keys_a[i]] == b[keys_a[i]] by {
            assert(items_a[i] == items_b[i]);
            lemma_entry::<T>(keys_a[i], a[keys_a[i]], keys_b[i], b[keys_b[i]]);
        }
        assert(keys_a =~= keys_b);
        assert(a.dom() =~= b.dom());
        assert forall|k: Identifier| a.contains_key(k) implies a[k] == b[k] by {
            assert(keys_a.to_set().contains(k));
            let i = choose|i: int| 0 <= i < keys_a.len() && keys_a[i] == k;
            assert(keys_a[i] == keys_b[i]);
        }
        assert(a =~= b);
    }
}

proof fn lemma_entry<T: Determined>(
    key_a: Identifier,
    a: <T as View>::V,
    key_b: Identifier,
    b: <T as View>::V,
)
    requires
        T::tables_finite(a),
        T::tables_finite(b),
    ensures
        starts_value(json_member(hex(key_a@), T::text(a))),
        separable(json_member(hex(key_a@), T::text(a)), json_member(hex(key_b@), T::text(b))),
        json_member(hex(key_a@), T::text(a)) == json_member(hex(key_b@), T::text(b)) ==> key_a
            == key_b && a == b,
{
    lemma_hex_id(key_a, key_b);
    T::lemma_text(a, b);
    lemma_member(hex(key_a@), T::text(a), hex(key_b@), T::text(b));
}

impl Determined for EligibilityAttestation {
    proof fn lemma_text(a: EligibilityAttestation, b: EligibilityAttestation) {
        lemma_id(a.provider_id, b.provider_id);
        lemma_id(a.subject_line_id, b.subject_line_id);
        lemma_id(a.policy_digest, b.policy_digest);
        lemma_id(a.evidence_digest, b.evidence_digest);
        lemma_number(a.valid_until as nat, b.valid_until as nat);
        let x = a.json_members();
        let y = b.json_members();
        assert forall|i: int| 0 <= i < 5 implies (#[trigger] x[i]).0 == y[i].0 && separable(
            x[i].1,
            y[i].1,
        ) by {
        }
        lemma_object(x, y);
        if x == y {
            assert(x[0].1 == y[0].1);
            assert(x[1].1 == y[1].1);
            assert(x[2].1 == y[2].1);
            assert(x[3].1 == y[3].1);
            assert(x[4].1 == y[4].1);
        }
    }
}

impl Determined for Participant {
    proof fn lemma_text(a: Participant, b: Participant) {
        lemma_id(a.participant_id, b.participant_id);
        lemma_id(a.settlement_participant_id, b.settlement_participant_id);
        EligibilityAttestation::lemma_text(a.eligibility, b.eligibility);
        lemma_number(a.default_fund_remaining as nat, b.default_fund_remaining as nat);
        lemma_id(a.default_fund_defmi_lock_id, b.default_fund_defmi_lock_id);
        lemma_id(a.default_fund_proof_digest, b.default_fund_proof_digest);
        lemma_participant_status(a.status, b.status);
        lemma_number(a.admitted_at as nat, b.admitted_at as nat);
        let x = a.json_members();
        let y = b.json_members();
        assert forall|i: int| 0 <= i < 8 implies (#[trigger] x[i]).0 == y[i].0 && separable(
            x[i].1,
            y[i].1,
        ) by {
        }
        lemma_object(x, y);
        if x == y {
            assert(x[0].1 == y[0].1);
            assert(x[1].1 == y[1].1);
            assert(x[2].1 == y[2].1);
            assert(x[3].1 == y[3].1);
            assert(x[4].1 == y[4].1);
            assert(x[5].1 == y[5].1);
            assert(x[6].1 == y[6].1);
            assert(x[7].1 == y[7].1);
        }
    }
}

impl Determined for CollateralLot {
    proof fn lemma_text(a: CollateralLot, b: CollateralLot) {
        lemma_id(a.operation_id, b.operation_id);
        lemma_id(a.lot_id, b.lot_id);
        lemma_id(a.owner_id, b.owner_id);
        lemma_id(a.asset_id, b.asset_id);
        lemma_id(a.defmi_lock_id, b.defmi_lock_id);
        lemma_number(a.market_value as nat, b.market_value as nat);
        lemma_number(a.haircut_basis_points as nat, b.haircut_basis_points as nat);
        lemma_id(a.valuation_policy_digest, b.valuation_policy_digest);
        lemma_id(a.valuation_proof_digest, b.valuation_proof_digest);
        lemma_number(a.valid_until as nat, b.valid_until as nat);
        lemma_collateral_status(a.status, b.status);
        let x = a.json_members();
        let y = b.json_members();
        assert forall|i: int| 0 <= i < 11 implies (#[trigger] x[i]).0 == y[i].0 && separable(
            x[i].1,
            y[i].1,
        ) by {
        }
        lemma_object(x, y);
        if x == y {
            assert(x[0].1 == y[0].1);
            assert(x[1].1 == y[1].1);
            assert(x[2].1 == y[2].1);
            assert(x[3].1 == y[3].1);
            assert(x[4].1 == y[4].1);
            assert(x[5].1 == y[5].1);
            assert(x[6].1 == y[6].1);
            assert(x[7].1 == y[7].1);
            assert(x[8].1 == y[8].1);
            assert(x[9].1 == y[9].1);
            assert(x[10].1 == y[10].1);
        }
    }
}

impl Determined for MarginAccount {
    proof fn lemma_text(a: MarginAccount, b: MarginAccount) {
        lemma_number(a.initial_margin as nat, b.initial_margin as nat);
        lemma_number(a.variation_margin as nat, b.variation_margin as nat);
        lemma_number(a.encumbered_collateral as nat, b.encumbered_collateral as nat);
        lemma_number(a.sequence as nat, b.sequence as nat);
        let x = a.json_members();
        let y = b.json_members();
        assert forall|i: int| 0 <= i < 4 implies (#[trigger] x[i]).0 == y[i].0 && separable(
            x[i].1,
            y[i].1,
        ) by {
        }
        lemma_object(x, y);
        if x == y {
            assert(x[0].1 == y[0].1);
            assert(x[1].1 == y[1].1);
            assert(x[2].1 == y[2].1);
            assert(x[3].1 == y[3].1);
        }
    }
}

impl Determined for ClearingLeg {
    proof fn lemma_text(a: ClearingLeg, b: ClearingLeg) {
        lemma_id(a.payer_id, b.payer_id);
        lemma_id(a.payee_id, b.payee_id);
        lemma_id(a.asset_id, b.asset_id);
        lemma_number(a.amount as nat, b.amount as nat);
        lemma_id(a.instruction_context_digest, b.instruction_context_digest);
        let x = a.json_members();
        let y = b.json_members();
        assert forall|i: int| 0 <= i < 5 implies (#[trigger] x[i]).0 == y[i].0 && separable(
            x[i].1,
            y[i].1,
        ) by {
        }
        lemma_object(x, y);
        if x == y {
            assert(x[0].1 == y[0].1);
            assert(x[1].1 == y[1].1);
            assert(x[2].1 == y[2].1);
            assert(x[3].1 == y[3].1);
            assert(x[4].1 == y[4].1);
        }
    }
}

impl Determined for NettingProposal {
    proof fn lemma_text(a: ProposalView, b: ProposalView) {
        lemma_id(a.cycle_id, b.cycle_id);
        lemma_netting_mode(a.mode, b.mode);
        lemma_id(a.obligation_root, b.obligation_root);
        lemma_list::<ClearingLeg>(
            a.legs,
            b.legs,
            a.legs.map_values(|x: ClearingLeg| ClearingLeg::text(x)),
            b.legs.map_values(|x: ClearingLeg| ClearingLeg::text(x)),
        );
        lemma_table::<u128>(a.risk_debits, b.risk_debits);
        lemma_id(a.proposal_digest, b.proposal_digest);
        let x = a.json_members();
        let y = b.json_members();
        assert forall|i: int| 0 <= i < 6 implies (#[trigger] x[i]).0 == y[i].0 && separable(
            x[i].1,
            y[i].1,
        ) by {
        }
        lemma_object(x, y);
        if x == y {
            assert(x[0].1 == y[0].1);
            assert(x[1].1 == y[1].1);
            assert(x[2].1 == y[2].1);
            assert(x[3].1 == y[3].1);
            assert(x[4].1 == y[4].1);
            assert(x[5].1 == y[5].1);
        }
    }
}

impl Determined for NettingCycle {
    proof fn lemma_text(a: CycleView, b: CycleView) {
        lemma_id(a.cycle_id, b.cycle_id);
        lemma_netting_mode(a.mode, b.mode);
        lemma_id(a.settlement_asset_id, b.settlement_asset_id);
        lemma_id(a.policy_digest, b.policy_digest);
        lemma_cycle_status(a.status, b.status);
        lemma_number(a.opened_at as nat, b.opened_at as nat);
        lemma_ids(a.obligations, b.obligations);
        lemma_optional::<NettingProposal>(a.closed_proposal, b.closed_proposal);
        lemma_slot(a.defmi_settlement_receipt, b.defmi_settlement_receipt);
        let x = a.json_members();
        let y = b.json_members();
        assert forall|i: int| 0 <= i < 9 implies (#[trigger] x[i]).0 == y[i].0 && separable(
            x[i].1,
            y[i].1,
        ) by {
        }
        lemma_object(x, y);
        if x == y {
            assert(x[0].1 == y[0].1);
            assert(x[1].1 == y[1].1);
            assert(x[2].1 == y[2].1);
            assert(x[3].1 == y[3].1);
            assert(x[4].1 == y[4].1);
            assert(x[5].1 == y[5].1);
            assert(x[6].1 == y[6].1);
            assert(x[7].1 == y[7].1);
            assert(x[8].1 == y[8].1);
        }
    }
}

impl Determined for ClearingObligation {
    proof fn lemma_text(a: ClearingObligation, b: ClearingObligation) {
        lemma_id(a.operation_id, b.operation_id);
        lemma_id(a.obligation_id, b.obligation_id);
        lemma_id(a.cycle_id, b.cycle_id);
        lemma_id(a.payer_id, b.payer_id);
        lemma_id(a.payee_id, b.payee_id);
        lemma_id(a.asset_id, b.asset_id);
        lemma_number(a.amount as nat, b.amount as nat);
        lemma_number(a.risk_value as nat, b.risk_value as nat);
        lemma_id(a.zkpi_digest, b.zkpi_digest);
        let x = a.json_members();
        let y = b.json_members();
        assert forall|i: int| 0 <= i < 9 implies (#[trigger] x[i]).0 == y[i].0 && separable(
            x[i].1,
            y[i].1,
        ) by {
        }
        lemma_object(x, y);
        if x == y {
            assert(x[0].1 == y[0].1);
            assert(x[1].1 == y[1].1);
            assert(x[2].1 == y[2].1);
            assert(x[3].1 == y[3].1);
            assert(x[4].1 == y[4].1);
            assert(x[5].1 == y[5].1);
            assert(x[6].1 == y[6].1);
            assert(x[7].1 == y[7].1);
            assert(x[8].1 == y[8].1);
        }
    }
}

impl Determined for GuaranteeFacility {
    proof fn lemma_text(a: GuaranteeFacility, b: GuaranteeFacility) {
        lemma_id(a.facility_id, b.facility_id);
        lemma_id(a.guarantor_id, b.guarantor_id);
        lemma_id(a.beneficiary_subject_line_id, b.beneficiary_subject_line_id);
        lemma_id(a.settlement_asset_id, b.settlement_asset_id);
        lemma_number(a.capacity as nat, b.capacity as nat);
        lemma_number(a.reserved as nat, b.reserved as nat);
        lemma_number(a.consumed as nat, b.consumed as nat);
        lemma_id(a.defmi_facility_id, b.defmi_facility_id);
        lemma_id(a.policy_digest, b.policy_digest);
        lemma_number(a.valid_until as nat, b.valid_until as nat);
        lemma_number(a.sequence as nat, b.sequence as nat);
        lemma_guarantee_facility_status(a.status, b.status);
        let x = a.json_members();
        let y = b.json_members();
        assert forall|i: int| 0 <= i < 12 implies (#[trigger] x[i]).0 == y[i].0 && separable(
            x[i].1,
            y[i].1,
        ) by {
        }
        lemma_object(x, y);
        if x == y {
            assert(x[0].1 == y[0].1);
            assert(x[1].1 == y[1].1);
            assert(x[2].1 == y[2].1);
            assert(x[3].1 == y[3].1);
            assert(x[4].1 == y[4].1);
            assert(x[5].1 == y[5].1);
            assert(x[6].1 == y[6].1);
            assert(x[7].1 == y[7].1);
            assert(x[8].1 == y[8].1);
            assert(x[9].1 == y[9].1);
            assert(x[10].1 == y[10].1);
            assert(x[11].1 == y[11].1);
        }
    }
}

impl Determined for GuaranteeHold {
    proof fn lemma_text(a: GuaranteeHold, b: GuaranteeHold) {
        lemma_id(a.hold_id, b.hold_id);
        lemma_id(a.facility_id, b.facility_id);
        lemma_id(a.purpose_digest, b.purpose_digest);
        lemma_number(a.amount as nat, b.amount as nat);
        lemma_id(a.defmi_hold_id, b.defmi_hold_id);
        lemma_id(a.relation_proof_digest, b.relation_proof_digest);
        lemma_number(a.valid_until as nat, b.valid_until as nat);
        lemma_guarantee_hold_status(a.status, b.status);
        lemma_slot(a.bound_exposure_id, b.bound_exposure_id);
        lemma_slot(a.defmi_settlement_receipt, b.defmi_settlement_receipt);
        let x = a.json_members();
        let y = b.json_members();
        assert forall|i: int| 0 <= i < 10 implies (#[trigger] x[i]).0 == y[i].0 && separable(
            x[i].1,
            y[i].1,
        ) by {
        }
        lemma_object(x, y);
        if x == y {
            assert(x[0].1 == y[0].1);
            assert(x[1].1 == y[1].1);
            assert(x[2].1 == y[2].1);
            assert(x[3].1 == y[3].1);
            assert(x[4].1 == y[4].1);
            assert(x[5].1 == y[5].1);
            assert(x[6].1 == y[6].1);
            assert(x[7].1 == y[7].1);
            assert(x[8].1 == y[8].1);
            assert(x[9].1 == y[9].1);
        }
    }
}

impl Determined for ConfidentialGuaranteeFacility {
    proof fn lemma_text(a: ConfidentialGuaranteeFacility, b: ConfidentialGuaranteeFacility) {
        lemma_id(a.facility_id, b.facility_id);
        lemma_id(a.guarantor_id, b.guarantor_id);
        lemma_id(a.beneficiary_subject_line_id, b.beneficiary_subject_line_id);
        lemma_id(a.settlement_asset_id, b.settlement_asset_id);
        lemma_id(a.capacity_commitment, b.capacity_commitment);
        lemma_id(a.latest_facility_state_digest, b.latest_facility_state_digest);
        lemma_id(a.defmi_facility_id, b.defmi_facility_id);
        lemma_id(a.policy_digest, b.policy_digest);
        lemma_number(a.valid_until as nat, b.valid_until as nat);
        lemma_number(a.sequence as nat, b.sequence as nat);
        lemma_guarantee_facility_status(a.status, b.status);
        let x = a.json_members();
        let y = b.json_members();
        assert forall|i: int| 0 <= i < 11 implies (#[trigger] x[i]).0 == y[i].0 && separable(
            x[i].1,
            y[i].1,
        ) by {
        }
        lemma_object(x, y);
        if x == y {
            assert(x[0].1 == y[0].1);
            assert(x[1].1 == y[1].1);
            assert(x[2].1 == y[2].1);
            assert(x[3].1 == y[3].1);
            assert(x[4].1 == y[4].1);
            assert(x[5].1 == y[5].1);
            assert(x[6].1 == y[6].1);
            assert(x[7].1 == y[7].1);
            assert(x[8].1 == y[8].1);
            assert(x[9].1 == y[9].1);
            assert(x[10].1 == y[10].1);
        }
    }
}

impl Determined for ConfidentialGuaranteeHold {
    proof fn lemma_text(a: ConfidentialGuaranteeHold, b: ConfidentialGuaranteeHold) {
        lemma_id(a.hold_id, b.hold_id);
        lemma_id(a.facility_id, b.facility_id);
        lemma_id(a.purpose_digest, b.purpose_digest);
        lemma_id(a.coverage_commitment, b.coverage_commitment);
        lemma_id(a.defmi_hold_id, b.defmi_hold_id);
        lemma_id(a.relation_proof_digest, b.relation_proof_digest);
        lemma_id(a.reserved_state_digest, b.reserved_state_digest);
        lemma_number(a.valid_until as nat, b.valid_until as nat);
        lemma_guarantee_hold_status(a.status, b.status);
        lemma_slot(a.bound_exposure_id, b.bound_exposure_id);
        lemma_slot(a.defmi_settlement_receipt, b.defmi_settlement_receipt);
        let x = a.json_members();
        let y = b.json_members();
        assert forall|i: int| 0 <= i < 11 implies (#[trigger] x[i]).0 == y[i].0 && separable(
            x[i].1,
            y[i].1,
        ) by {
        }
        lemma_object(x, y);
        if x == y {
            assert(x[0].1 == y[0].1);
            assert(x[1].1 == y[1].1);
            assert(x[2].1 == y[2].1);
            assert(x[3].1 == y[3].1);
            assert(x[4].1 == y[4].1);
            assert(x[5].1 == y[5].1);
            assert(x[6].1 == y[6].1);
            assert(x[7].1 == y[7].1);
            assert(x[8].1 == y[8].1);
            assert(x[9].1 == y[9].1);
            assert(x[10].1 == y[10].1);
        }
    }
}

impl Determined for DefaultEvidence {
    proof fn lemma_text(a: DefaultEvidence, b: DefaultEvidence) {
        lemma_id(a.event_id, b.event_id);
        lemma_id(a.source_id, b.source_id);
        lemma_id(a.participant_id, b.participant_id);
        lemma_id(a.event_digest, b.event_digest);
        lemma_number(a.observed_at as nat, b.observed_at as nat);
        let x = a.json_members();
        let y = b.json_members();
        assert forall|i: int| 0 <= i < 5 implies (#[trigger] x[i]).0 == y[i].0 && separable(
            x[i].1,
            y[i].1,
        ) by {
        }
        lemma_object(x, y);
        if x == y {
            assert(x[0].1 == y[0].1);
            assert(x[1].1 == y[1].1);
            assert(x[2].1 == y[2].1);
            assert(x[3].1 == y[3].1);
            assert(x[4].1 == y[4].1);
        }
    }
}

impl Determined for WaterfallDraw {
    proof fn lemma_text(a: WaterfallDraw, b: WaterfallDraw) {
        lemma_default_source_kind(a.source_kind, b.source_kind);
        lemma_slot(a.participant_id, b.participant_id);
        lemma_number(a.amount as nat, b.amount as nat);
        let x = a.json_members();
        let y = b.json_members();
        assert forall|i: int| 0 <= i < 3 implies (#[trigger] x[i]).0 == y[i].0 && separable(
            x[i].1,
            y[i].1,
        ) by {
        }
        lemma_object(x, y);
        if x == y {
            assert(x[0].1 == y[0].1);
            assert(x[1].1 == y[1].1);
            assert(x[2].1 == y[2].1);
        }
    }
}

impl Determined for DefaultResolution {
    proof fn lemma_text(a: ResolutionView, b: ResolutionView) {
        lemma_id(a.case_id, b.case_id);
        lemma_id(a.participant_id, b.participant_id);
        lemma_number(a.shortfall as nat, b.shortfall as nat);
        lemma_list::<WaterfallDraw>(
            a.draws,
            b.draws,
            a.draws.map_values(|x: WaterfallDraw| WaterfallDraw::text(x)),
            b.draws.map_values(|x: WaterfallDraw| WaterfallDraw::text(x)),
        );
        lemma_id(a.settlement_context_digest, b.settlement_context_digest);
        lemma_id(a.resolution_digest, b.resolution_digest);
        let x = a.json_members();
        let y = b.json_members();
        assert forall|i: int| 0 <= i < 6 implies (#[trigger] x[i]).0 == y[i].0 && separable(
            x[i].1,
            y[i].1,
        ) by {
        }
        lemma_object(x, y);
        if x == y {
            assert(x[0].1 == y[0].1);
            assert(x[1].1 == y[1].1);
            assert(x[2].1 == y[2].1);
            assert(x[3].1 == y[3].1);
            assert(x[4].1 == y[4].1);
            assert(x[5].1 == y[5].1);
        }
    }
}

impl Determined for DefaultCase {
    proof fn lemma_text(a: CaseView, b: CaseView) {
        lemma_id(a.case_id, b.case_id);
        DefaultEvidence::lemma_text(a.evidence, b.evidence);
        lemma_number(a.declared_at as nat, b.declared_at as nat);
        lemma_optional::<DefaultResolution>(a.resolution, b.resolution);
        lemma_slot(a.defmi_settlement_receipt, b.defmi_settlement_receipt);
        let x = a.json_members();
        let y = b.json_members();
        assert forall|i: int| 0 <= i < 5 implies (#[trigger] x[i]).0 == y[i].0 && separable(
            x[i].1,
            y[i].1,
        ) by {
        }
        lemma_object(x, y);
        if x == y {
            assert(x[0].1 == y[0].1);
            assert(x[1].1 == y[1].1);
            assert(x[2].1 == y[2].1);
            assert(x[3].1 == y[3].1);
            assert(x[4].1 == y[4].1);
        }
    }
}

/// The text of a state determines it, given its authorities.
pub proof fn lemma_state_text(a: BookState, b: BookState)
    requires
        a.finite_throughout(),
        b.finite_throughout(),
        a.authorities == b.authorities,
        a.encoding() == b.encoding(),
    ensures
        a == b,
{
    lemma_table::<Participant>(a.participants, b.participants);
    lemma_table::<CollateralLot>(a.collateral, b.collateral);
    lemma_table::<MarginAccount>(a.margins, b.margins);
    lemma_table::<NettingCycle>(a.cycles, b.cycles);
    lemma_table::<ClearingObligation>(a.obligations, b.obligations);
    lemma_table::<GuaranteeFacility>(a.guarantee_facilities, b.guarantee_facilities);
    lemma_table::<GuaranteeHold>(a.guarantee_holds, b.guarantee_holds);
    lemma_table::<ConfidentialGuaranteeFacility>(
        a.confidential_guarantee_facilities,
        b.confidential_guarantee_facilities,
    );
    lemma_table::<ConfidentialGuaranteeHold>(
        a.confidential_guarantee_holds,
        b.confidential_guarantee_holds,
    );
    lemma_table::<DefaultCase>(a.defaults, b.defaults);
    lemma_number(a.ccp_capital_remaining as nat, b.ccp_capital_remaining as nat);
    lemma_id(a.ccp_capital_defmi_lock_id, b.ccp_capital_defmi_lock_id);
    lemma_id(a.ccp_capital_proof_digest, b.ccp_capital_proof_digest);
    lemma_number(a.ccp_capital_valid_until as nat, b.ccp_capital_valid_until as nat);
    lemma_set(a.used_operations, b.used_operations);
    let x = a.json_members();
    let y = b.json_members();
    assert forall|i: int| 0 <= i < 16 implies (#[trigger] x[i]).0 == y[i].0 && separable(
        x[i].1,
        y[i].1,
    ) by {
    }
    lemma_object(x, y);
    assert(x[1].1 == y[1].1);
    assert(x[2].1 == y[2].1);
    assert(x[3].1 == y[3].1);
    assert(x[4].1 == y[4].1);
    assert(x[5].1 == y[5].1);
    assert(x[6].1 == y[6].1);
    assert(x[7].1 == y[7].1);
    assert(x[8].1 == y[8].1);
    assert(x[9].1 == y[9].1);
    assert(x[10].1 == y[10].1);
    assert(x[11].1 == y[11].1);
    assert(x[12].1 == y[12].1);
    assert(x[13].1 == y[13].1);
    assert(x[14].1 == y[14].1);
    assert(x[15].1 == y[15].1);
    assert(a =~= b);
}

} // verus!
