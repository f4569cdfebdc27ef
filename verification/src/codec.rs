//! The serialized text form of effects records and checkpoint summaries:
//! length-prefixed strings and `:`-terminated decimal numbers, so no
//! escaping is needed. Decoding inverts encoding exactly, which is proved
//! here and is the contract the stores' opaque blobs rest on.

use vstd::prelude::*;
use vstd::string::StrSliceExecFns;
use vstd::string::StringExecFns;

use crate::effects::{EffectsView, TransactionEffects};
use crate::messages::{CheckpointSummary, CheckpointSummaryView};
use crate::object::{ObjectData, ObjectDataView, ObjectID, ObjectView, Owner, OwnerView, SuiObject};
use crate::strutil::{append_num, enc_num, lemma_parse_enc_num, parse_dec, parse_dec_at};
use crate::transaction::TransactionDigest;

verus! {

// ---------------------------------------------------------------------------
// Encoding, at the specification level
// ---------------------------------------------------------------------------

/// A string is written as its length and its raw characters; the length
/// says where it stops, so no character needs escaping.
pub open spec fn enc_str(s: Seq<char>) -> Seq<char> {
    enc_num(s.len()) + s
}

pub open spec fn enc_owner(o: OwnerView) -> Seq<char> {
    match o {
        OwnerView::Address(a) => seq!['a'] + enc_str(a),
        OwnerView::Shared => seq!['s'],
        OwnerView::Immutable => seq!['i'],
    }
}

pub open spec fn enc_str_list(l: Seq<Seq<char>>) -> Seq<char>
    decreases l.len(),
{
    if l.len() == 0 {
        Seq::empty()
    } else {
        enc_str(l[0]) + enc_str_list(l.subrange(1, l.len() as int))
    }
}

pub open spec fn enc_data(d: ObjectDataView) -> Seq<char> {
    match d {
        ObjectDataView::Coin { balance } => seq!['c'] + enc_num(balance as nat),
        ObjectDataView::Package { modules } => seq!['p'] + enc_num(modules.len()) + enc_str_list(
            modules,
        ),
        ObjectDataView::MoveStruct { type_tag, fields } => seq!['m'] + enc_str(type_tag) + enc_str(
            fields,
        ),
    }
}

pub open spec fn enc_obj(o: ObjectView) -> Seq<char> {
    enc_str(o.id) + enc_num(o.version as nat) + enc_owner(o.owner) + enc_data(o.data)
}

pub open spec fn enc_obj_list(l: Seq<ObjectView>) -> Seq<char>
    decreases l.len(),
{
    if l.len() == 0 {
        Seq::empty()
    } else {
        enc_obj(l[0]) + enc_obj_list(l.subrange(1, l.len() as int))
    }
}

pub open spec fn enc_effects(e: EffectsView) -> Seq<char> {
    enc_str(e.digest) + enc_num(e.created.len()) + enc_obj_list(e.created) + enc_num(
        e.mutated.len(),
    ) + enc_obj_list(e.mutated) + enc_num(e.events.len()) + enc_str_list(e.events)
}

pub open spec fn enc_checkpoint(c: CheckpointSummaryView) -> Seq<char> {
    enc_num(c.sequence_number as nat) + enc_num(c.transaction_count as nat) + enc_str(
        c.root_digest,
    )
}

// ---------------------------------------------------------------------------
// What any value held in memory satisfies: every string and list fits the
// machine's sizes. Encoding does not need these; decoding back does.
// ---------------------------------------------------------------------------

pub open spec fn str_ok(s: Seq<char>) -> bool {
    s.len() <= usize::MAX
}

pub open spec fn owner_ok(o: OwnerView) -> bool {
    match o {
        OwnerView::Address(a) => str_ok(a),
        _ => true,
    }
}

pub open spec fn data_ok(d: ObjectDataView) -> bool {
    match d {
        ObjectDataView::Coin { .. } => true,
        ObjectDataView::Package { modules } => modules.len() <= usize::MAX && (forall|i: int|
            0 <= i < modules.len() ==> str_ok(#[trigger] modules[i])),
        ObjectDataView::MoveStruct { type_tag, fields } => str_ok(type_tag) && str_ok(fields),
    }
}

pub open spec fn obj_ok(o: ObjectView) -> bool {
    str_ok(o.id) && owner_ok(o.owner) && data_ok(o.data)
}

pub open spec fn effects_ok(e: EffectsView) -> bool {
    &&& str_ok(e.digest)
    &&& e.created.len() <= usize::MAX
    &&& forall|i: int| 0 <= i < e.created.len() ==> obj_ok(#[trigger] e.created[i])
    &&& e.mutated.len() <= usize::MAX
    &&& forall|i: int| 0 <= i < e.mutated.len() ==> obj_ok(#[trigger] e.mutated[i])
    &&& e.events.len() <= usize::MAX
    &&& forall|i: int| 0 <= i < e.events.len() ==> str_ok(#[trigger] e.events[i])
}

pub open spec fn checkpoint_ok(c: CheckpointSummaryView) -> bool {
    str_ok(c.root_digest)
}

// ---------------------------------------------------------------------------
// Decoding, at the specification level
// ---------------------------------------------------------------------------

pub open spec fn dec_num(s: Seq<char>) -> Option<(nat, Seq<char>)> {
    parse_dec(s, 0)
}

pub open spec fn dec_str(s: Seq<char>) -> Option<(Seq<char>, Seq<char>)> {
    match parse_dec(s, 0) {
        Option::None => Option::None,
        Option::Some((l, rest)) => {
            if l <= usize::MAX && rest.len() >= l {
                Option::Some((rest.subrange(0, l as int), rest.subrange(l as int, rest.len() as int)))
            } else {
                Option::None
            }
        },
    }
}

pub open spec fn dec_owner(s: Seq<char>) -> Option<(OwnerView, Seq<char>)> {
    if s.len() == 0 {
        Option::None
    } else if s[0] == 'a' {
        match dec_str(s.subrange(1, s.len() as int)) {
            Option::Some((a, rest)) => Option::Some((OwnerView::Address(a), rest)),
            Option::None => Option::None,
        }
    } else if s[0] == 's' {
        Option::Some((OwnerView::Shared, s.subrange(1, s.len() as int)))
    } else if s[0] == 'i' {
        Option::Some((OwnerView::Immutable, s.subrange(1, s.len() as int)))
    } else {
        Option::None
    }
}

pub open spec fn dec_str_list(s: Seq<char>, n: nat) -> Option<(Seq<Seq<char>>, Seq<char>)>
    decreases n,
{
    if n == 0 {
        Option::Some((Seq::empty(), s))
    } else {
        match dec_str(s) {
            Option::Some((x, rest)) => match dec_str_list(rest, (n - 1) as nat) {
                Option::Some((l, rest2)) => Option::Some((seq![x] + l, rest2)),
                Option::None => Option::None,
            },
            Option::None => Option::None,
        }
    }
}

pub open spec fn dec_data(s: Seq<char>) -> Option<(ObjectDataView, Seq<char>)> {
    if s.len() == 0 {
        Option::None
    } else if s[0] == 'c' {
        match dec_num(s.subrange(1, s.len() as int)) {
            Option::Some((b, rest)) => Option::Some(
                (ObjectDataView::Coin { balance: b as u64 }, rest),
            ),
            Option::None => Option::None,
        }
    } else if s[0] == 'p' {
        match dec_num(s.subrange(1, s.len() as int)) {
            Option::Some((n, rest)) => {
                if n <= usize::MAX {
                    match dec_str_list(rest, n) {
                        Option::Some((l, rest2)) => Option::Some(
                            (ObjectDataView::Package { modules: l }, rest2),
                        ),
                        Option::None => Option::None,
                    }
                } else {
                    Option::None
                }
            },
            Option::None => Option::None,
        }
    } else if s[0] == 'm' {
        match dec_str(s.subrange(1, s.len() as int)) {
            Option::Some((t, rest)) => match dec_str(rest) {
                Option::Some((f, rest2)) => Option::Some(
                    (ObjectDataView::MoveStruct { type_tag: t, fields: f }, rest2),
                ),
                Option::None => Option::None,
            },
            Option::None => Option::None,
        }
    } else {
        Option::None
    }
}

pub open spec fn dec_obj(s: Seq<char>) -> Option<(ObjectView, Seq<char>)> {
    match dec_str(s) {
        Option::Some((id, r1)) => match dec_num(r1) {
            Option::Some((v, r2)) => match dec_owner(r2) {
                Option::Some((ow, r3)) => match dec_data(r3) {
                    Option::Some((d, r4)) => Option::Some(
                        (ObjectView { id: id, version: v as u64, owner: ow, data: d }, r4),
                    ),
                    Option::None => Option::None,
                },
                Option::None => Option::None,
            },
            Option::None => Option::None,
        },
        Option::None => Option::None,
    }
}

pub open spec fn dec_obj_list(s: Seq<char>, n: nat) -> Option<(Seq<ObjectView>, Seq<char>)>
    decreases n,
{
    if n == 0 {
        Option::Some((Seq::empty(), s))
    } else {
        match dec_obj(s) {
            Option::Some((o, rest)) => match dec_obj_list(rest, (n - 1) as nat) {
                Option::Some((l, rest2)) => Option::Some((seq![o] + l, rest2)),
                Option::None => Option::None,
            },
            Option::None => Option::None,
        }
    }
}

/// Decoding a whole effects record; trailing input is rejected.
pub open spec fn dec_effects(s: Seq<char>) -> Option<EffectsView> {
    match dec_str(s) {
        Option::Some((digest, r1)) => match dec_num(r1) {
            Option::Some((nc, r2)) => {
                if nc <= usize::MAX {
                    match dec_obj_list(r2, nc) {
                        Option::Some((created, r3)) => match dec_num(r3) {
                            Option::Some((nm, r4)) => {
                                if nm <= usize::MAX {
                                    match dec_obj_list(r4, nm) {
                                        Option::Some((mutated, r5)) => match dec_num(r5) {
                                            Option::Some((ne, r6)) => {
                                                if ne <= usize::MAX {
                                                    match dec_str_list(r6, ne) {
                                                        Option::Some((events, r7)) => {
                                                            if r7.len() == 0 {
                                                                Option::Some(
                                                                    EffectsView {
                                                                        digest,
                                                                        created,
                                                                        mutated,
                                                                        events,
                                                                    },
                                                                )
                                                            } else {
                                                                Option::None
                                                            }
                                                        },
                                                        Option::None => Option::None,
                                                    }
                                                } else {
                                                    Option::None
                                                }
                                            },
                                            Option::None => Option::None,
                                        },
                                        Option::None => Option::None,
                                    }
                                } else {
                                    Option::None
                                }
                            },
                            Option::None => Option::None,
                        },
                        Option::None => Option::None,
                    }
                } else {
                    Option::None
                }
            },
            Option::None => Option::None,
        },
        Option::None => Option::None,
    }
}

/// Decoding a whole checkpoint summary; trailing input is rejected.
pub open spec fn dec_checkpoint(s: Seq<char>) -> Option<CheckpointSummaryView> {
    match dec_num(s) {
        Option::Some((sn, r1)) => match dec_num(r1) {
            Option::Some((tc, r2)) => {
                if tc <= usize::MAX {
                    match dec_str(r2) {
                        Option::Some((root, r3)) => {
                            if r3.len() == 0 {
                                Option::Some(
                                    CheckpointSummaryView {
                                        sequence_number: sn as u64,
                                        transaction_count: tc as usize,
                                        root_digest: root,
                                    },
                                )
                            } else {
                                Option::None
                            }
                        },
                        Option::None => Option::None,
                    }
                } else {
                    Option::None
                }
            },
            Option::None => Option::None,
        },
        Option::None => Option::None,
    }
}

// ---------------------------------------------------------------------------
// Round trip: decoding inverts encoding
// ---------------------------------------------------------------------------

proof fn lemma_rt_num(n: nat, rest: Seq<char>)
    requires
        n <= u64::MAX,
    ensures
        dec_num(enc_num(n) + rest) == Some((n, rest)),
{
    lemma_parse_enc_num(n, rest);
}

proof fn lemma_rt_str(s: Seq<char>, rest: Seq<char>)
    requires
        str_ok(s),
    ensures
        dec_str(enc_str(s) + rest) == Some((s, rest)),
{
    assert(usize::MAX <= u64::MAX);
    let whole = s + rest;
    assert(enc_str(s) + rest =~= enc_num(s.len()) + whole);
    lemma_parse_enc_num(s.len(), whole);
    assert(whole.subrange(0, s.len() as int) =~= s);
    assert(whole.subrange(s.len() as int, whole.len() as int) =~= rest);
}

proof fn lemma_rt_owner(o: OwnerView, rest: Seq<char>)
    requires
        owner_ok(o),
    ensures
        dec_owner(enc_owner(o) + rest) == Some((o, rest)),
{
    let s = enc_owner(o) + rest;
    match o {
        OwnerView::Address(a) => {
            assert(s[0] == 'a');
            assert(s.subrange(1, s.len() as int) =~= enc_str(a) + rest);
            lemma_rt_str(a, rest);
        },
        OwnerView::Shared => {
            assert(s[0] == 's');
            assert(s.subrange(1, s.len() as int) =~= rest);
        },
        OwnerView::Immutable => {
            assert(s[0] == 'i');
            assert(s.subrange(1, s.len() as int) =~= rest);
        },
    }
}

proof fn lemma_rt_str_list(l: Seq<Seq<char>>, rest: Seq<char>)
    requires
        forall|i: int| 0 <= i < l.len() ==> str_ok(#[trigger] l[i]),
    ensures
        dec_str_list(enc_str_list(l) + rest, l.len()) == Some((l, rest)),
    decreases l.len(),
{
    if l.len() == 0 {
        assert(enc_str_list(l) + rest =~= rest);
        assert(dec_str_list(rest, 0) == Some((Seq::<Seq<char>>::empty(), rest)));
        assert(l =~= Seq::<Seq<char>>::empty());
    } else {
        let tail = l.subrange(1, l.len() as int);
        assert(enc_str_list(l) + rest =~= enc_str(l[0]) + (enc_str_list(tail) + rest));
        lemma_rt_str(l[0], enc_str_list(tail) + rest);
        lemma_rt_str_list(tail, rest);
        assert(seq![l[0]] + tail =~= l);
    }
}

proof fn lemma_rt_data(d: ObjectDataView, rest: Seq<char>)
    requires
        data_ok(d),
    ensures
        dec_data(enc_data(d) + rest) == Some((d, rest)),
{
    let s = enc_data(d) + rest;
    match d {
        ObjectDataView::Coin { balance } => {
            assert(s[0] == 'c');
            assert(s.subrange(1, s.len() as int) =~= enc_num(balance as nat) + rest);
            lemma_rt_num(balance as nat, rest);
        },
        ObjectDataView::Package { modules } => {
            assert(s[0] == 'p');
            assert(usize::MAX <= u64::MAX);
            assert(s.subrange(1, s.len() as int) =~= enc_num(modules.len()) + (enc_str_list(
                modules,
            ) + rest));
            lemma_rt_num(modules.len(), enc_str_list(modules) + rest);
            lemma_rt_str_list(modules, rest);
        },
        ObjectDataView::MoveStruct { type_tag, fields } => {
            assert(s[0] == 'm');
            assert(s.subrange(1, s.len() as int) =~= enc_str(type_tag) + (enc_str(fields) + rest));
            lemma_rt_str(type_tag, enc_str(fields) + rest);
            lemma_rt_str(fields, rest);
        },
    }
}

proof fn lemma_rt_obj(o: ObjectView, rest: Seq<char>)
    requires
        obj_ok(o),
    ensures
        dec_obj(enc_obj(o) + rest) == Some((o, rest)),
{
    let t1 = enc_num(o.version as nat) + (enc_owner(o.owner) + (enc_data(o.data) + rest));
    assert(enc_obj(o) + rest =~= enc_str(o.id) + t1);
    lemma_rt_str(o.id, t1);
    lemma_rt_num(o.version as nat, enc_owner(o.owner) + (enc_data(o.data) + rest));
    lemma_rt_owner(o.owner, enc_data(o.data) + rest);
    lemma_rt_data(o.data, rest);
}

proof fn lemma_rt_obj_list(l: Seq<ObjectView>, rest: Seq<char>)
    requires
        forall|i: int| 0 <= i < l.len() ==> obj_ok(#[trigger] l[i]),
    ensures
        dec_obj_list(enc_obj_list(l) + rest, l.len()) == Some((l, rest)),
    decreases l.len(),
{
    if l.len() == 0 {
        assert(enc_obj_list(l) + rest =~= rest);
        assert(l =~= Seq::<ObjectView>::empty());
    } else {
        let tail = l.subrange(1, l.len() as int);
        assert(enc_obj_list(l) + rest =~= enc_obj(l[0]) + (enc_obj_list(tail) + rest));
        lemma_rt_obj(l[0], enc_obj_list(tail) + rest);
        lemma_rt_obj_list(tail, rest);
        assert(seq![l[0]] + tail =~= l);
    }
}

/// Round trip for effects: any effects record a process can hold decodes
/// from its own encoding, to the same value.
#[verifier::rlimit(60)]
pub proof fn lemma_effects_round_trip(e: EffectsView)
    requires
        effects_ok(e),
    ensures
        dec_effects(enc_effects(e)) == Some(e),
{
    assert(usize::MAX <= u64::MAX);
    let t6 = enc_str_list(e.events);
    let t5 = enc_num(e.events.len()) + t6;
    let t4 = enc_obj_list(e.mutated) + t5;
    let t3 = enc_num(e.mutated.len()) + t4;
    let t2 = enc_obj_list(e.created) + t3;
    let t1 = enc_num(e.created.len()) + t2;
    assert(enc_effects(e) =~= enc_str(e.digest) + t1);
    lemma_rt_str(e.digest, t1);
    lemma_rt_num(e.created.len(), t2);
    lemma_rt_obj_list(e.created, t3);
    lemma_rt_num(e.mutated.len(), t4);
    lemma_rt_obj_list(e.mutated, t5);
    lemma_rt_num(e.events.len(), t6);
    assert(t6 =~= enc_str_list(e.events) + Seq::<char>::empty());
    lemma_rt_str_list(e.events, Seq::empty());
}

/// Round trip for checkpoint summaries.
pub proof fn lemma_checkpoint_round_trip(c: CheckpointSummaryView)
    requires
        checkpoint_ok(c),
    ensures
        dec_checkpoint(enc_checkpoint(c)) == Some(c),
{
    assert(usize::MAX <= u64::MAX);
    let t2 = enc_str(c.root_digest);
    let t1 = enc_num(c.transaction_count as nat) + t2;
    assert(enc_checkpoint(c) =~= enc_num(c.sequence_number as nat) + t1);
    lemma_rt_num(c.sequence_number as nat, t1);
    lemma_rt_num(c.transaction_count as nat, t2);
    assert(t2 =~= enc_str(c.root_digest) + Seq::<char>::empty());
    lemma_rt_str(c.root_digest, Seq::empty());
}

/// Effects persisted under a digest and then retrieved decode to the value
/// that was built, for any digest/effects pair.
pub proof fn lemma_persisted_effects_round_trip(
    before: Map<Seq<char>, Seq<char>>,
    digest: Seq<char>,
    e: EffectsView,
)
    requires
        effects_ok(e),
    ensures
        dec_effects(before.insert(digest, enc_effects(e))[digest]) == Some(e),
{
    lemma_effects_round_trip(e);
}

// ---------------------------------------------------------------------------
// Snoc forms of the list encoders, for the encoding loops
// ---------------------------------------------------------------------------

proof fn lemma_enc_str_list_snoc(l: Seq<Seq<char>>, x: Seq<char>)
    ensures
        enc_str_list(l.push(x)) == enc_str_list(l) + enc_str(x),
    decreases l.len(),
{
    if l.len() == 0 {
        assert(l =~= Seq::<Seq<char>>::empty());
        assert(l.push(x)[0] == x);
        let sub = l.push(x).subrange(1, l.push(x).len() as int);
        assert(sub =~= Seq::<Seq<char>>::empty());
        assert(enc_str_list(sub) == Seq::<char>::empty());
        assert(enc_str_list(l.push(x)) == enc_str(x) + enc_str_list(sub));
        assert(enc_str_list(l.push(x)) =~= enc_str_list(l) + enc_str(x));
    } else {
        let tail = l.subrange(1, l.len() as int);
        lemma_enc_str_list_snoc(tail, x);
        assert(l.push(x)[0] == l[0]);
        assert(l.push(x).subrange(1, l.push(x).len() as int) =~= tail.push(x));
        assert(enc_str_list(l.push(x)) == enc_str(l[0]) + (enc_str_list(tail) + enc_str(x)));
        assert(enc_str(l[0]) + (enc_str_list(tail) + enc_str(x)) =~= enc_str_list(l) + enc_str(x));
    }
}

proof fn lemma_enc_obj_list_snoc(l: Seq<ObjectView>, x: ObjectView)
    ensures
        enc_obj_list(l.push(x)) == enc_obj_list(l) + enc_obj(x),
    decreases l.len(),
{
    if l.len() == 0 {
        assert(l =~= Seq::<ObjectView>::empty());
        assert(l.push(x)[0] == x);
        let sub = l.push(x).subrange(1, l.push(x).len() as int);
        assert(sub =~= Seq::<ObjectView>::empty());
        assert(enc_obj_list(sub) == Seq::<char>::empty());
        assert(enc_obj_list(l.push(x)) == enc_obj(x) + enc_obj_list(sub));
        assert(enc_obj_list(l.push(x)) =~= enc_obj_list(l) + enc_obj(x));
    } else {
        let tail = l.subrange(1, l.len() as int);
        lemma_enc_obj_list_snoc(tail, x);
        assert(l.push(x)[0] == l[0]);
        assert(l.push(x).subrange(1, l.push(x).len() as int) =~= tail.push(x));
        assert(enc_obj_list(l.push(x)) == enc_obj(l[0]) + (enc_obj_list(tail) + enc_obj(x)));
        assert(enc_obj(l[0]) + (enc_obj_list(tail) + enc_obj(x)) =~= enc_obj_list(l) + enc_obj(x));
    }
}

// ---------------------------------------------------------------------------
// Executable encoding
// ---------------------------------------------------------------------------

/// Appends the length-prefixed form of `s`.
fn append_str_enc(out: &mut String, s: &str)
    ensures
        final(out)@ == old(out)@ + enc_str(s@),
        str_ok(s@),
{
    let l = s.unicode_len();
    append_num(out, l as u64);
    out.append(s);
    proof {
        assert(final(out)@ =~= old(out)@ + enc_str(s@));
    }
}

/// Appends the encoding of one object.
#[verifier::rlimit(100)]
fn append_obj_enc(out: &mut String, o: &SuiObject)
    ensures
        final(out)@ == old(out)@ + enc_obj(o@),
        obj_ok(o@),
{
    append_str_enc(out, o.id.0.as_str());
    append_num(out, o.version);
    match &o.owner {
        Owner::Address(a) => {
            out.append("a");
            proof {
                reveal_strlit("a");
            }
            append_str_enc(out, a.as_str());
            proof {
                assert("a"@ =~= seq!['a']);
            }
        },
        Owner::Shared => {
            out.append("s");
            proof {
                reveal_strlit("s");
                assert("s"@ =~= seq!['s']);
            }
        },
        Owner::Immutable => {
            out.append("i");
            proof {
                reveal_strlit("i");
                assert("i"@ =~= seq!['i']);
            }
        },
    }
    let ghost mid = out@;
    match &o.data {
        ObjectData::Coin { balance } => {
            out.append("c");
            proof {
                reveal_strlit("c");
                assert("c"@ =~= seq!['c']);
            }
            append_num(out, *balance);
        },
        ObjectData::Package { modules } => {
            out.append("p");
            proof {
                reveal_strlit("p");
                assert("p"@ =~= seq!['p']);
            }
            append_num(out, modules.len() as u64);
            let ghost base = out@;
            let ghost model = modules.deep_view();
            let mut i: usize = 0;
            while i < modules.len()
                invariant
                    0 <= i <= modules.len(),
                    model == modules.deep_view(),
                    model.len() == modules.len(),
                    out@ == base + enc_str_list(model.subrange(0, i as int)),
                    forall|j: int| 0 <= j < i ==> str_ok(#[trigger] model[j]),
                decreases modules.len() - i,
            {
                append_str_enc(out, modules[i].as_str());
                proof {
                    lemma_enc_str_list_snoc(model.subrange(0, i as int), model[i as int]);
                    assert(model.subrange(0, i as int).push(model[i as int]) =~= model.subrange(
                        0,
                        i as int + 1,
                    ));
                    assert(out@ =~= base + enc_str_list(model.subrange(0, i as int + 1)));
                }
                i = i + 1;
            }
            proof {
                assert(model.subrange(0, model.len() as int) =~= model);
            }
        },
        ObjectData::MoveStruct { type_tag, fields } => {
            out.append("m");
            proof {
                reveal_strlit("m");
                assert("m"@ =~= seq!['m']);
            }
            append_str_enc(out, type_tag.as_str());
            append_str_enc(out, fields.as_str());
        },
    }
    proof {
        assert(final(out)@ =~= old(out)@ + enc_obj(o@));
    }
}

/// The serialized text of one object.
pub fn encode_object(o: &SuiObject) -> (r: String)
    ensures
        r@ == enc_obj(o@),
        obj_ok(o@),
{
    let mut out = String::new();
    append_obj_enc(&mut out, o);
    out
}

/// The serialized text of an effects record.
pub fn encode_effects(e: &TransactionEffects) -> (r: String)
    ensures
        r@ == enc_effects(e@),
        effects_ok(e@),
{
    let mut out = String::new();
    append_str_enc(&mut out, e.digest.0.as_str());

    append_num(&mut out, e.created.len() as u64);
    let ghost base1 = out@;
    let ghost created_model = e.created.deep_view();
    let mut i: usize = 0;
    while i < e.created.len()
        invariant
            0 <= i <= e.created.len(),
            created_model == e.created.deep_view(),
            created_model.len() == e.created.len(),
            out@ == base1 + enc_obj_list(created_model.subrange(0, i as int)),
            forall|j: int| 0 <= j < i ==> obj_ok(#[trigger] created_model[j]),
        decreases e.created.len() - i,
    {
        append_obj_enc(&mut out, &e.created[i]);
        proof {
            lemma_enc_obj_list_snoc(created_model.subrange(0, i as int), created_model[i as int]);
            assert(created_model.subrange(0, i as int).push(created_model[i as int])
                =~= created_model.subrange(0, i as int + 1));
            assert(out@ =~= base1 + enc_obj_list(created_model.subrange(0, i as int + 1)));
        }
        i = i + 1;
    }
    proof {
        assert(created_model.subrange(0, created_model.len() as int) =~= created_model);
    }

    append_num(&mut out, e.mutated.len() as u64);
    let ghost base2 = out@;
    let ghost mutated_model = e.mutated.deep_view();
    let mut i: usize = 0;
    while i < e.mutated.len()
        invariant
            0 <= i <= e.mutated.len(),
            mutated_model == e.mutated.deep_view(),
            mutated_model.len() == e.mutated.len(),
            out@ == base2 + enc_obj_list(mutated_model.subrange(0, i as int)),
            forall|j: int| 0 <= j < i ==> obj_ok(#[trigger] mutated_model[j]),
        decreases e.mutated.len() - i,
    {
        append_obj_enc(&mut out, &e.mutated[i]);
        proof {
            lemma_enc_obj_list_snoc(mutated_model.subrange(0, i as int), mutated_model[i as int]);
            assert(mutated_model.subrange(0, i as int).push(mutated_model[i as int])
                =~= mutated_model.subrange(0, i as int + 1));
            assert(out@ =~= base2 + enc_obj_list(mutated_model.subrange(0, i as int + 1)));
        }
        i = i + 1;
    }
    proof {
        assert(mutated_model.subrange(0, mutated_model.len() as int) =~= mutated_model);
    }

    append_num(&mut out, e.events.len() as u64);
    let ghost base3 = out@;
    let ghost events_model = e.events.deep_view();
    let mut i: usize = 0;
    while i < e.events.len()
        invariant
            0 <= i <= e.events.len(),
            events_model == e.events.deep_view(),
            events_model.len() == e.events.len(),
            out@ == base3 + enc_str_list(events_model.subrange(0, i as int)),
            forall|j: int| 0 <= j < i ==> str_ok(#[trigger] events_model[j]),
        decreases e.events.len() - i,
    {
        append_str_enc(&mut out, e.events[i].as_str());
        proof {
            lemma_enc_str_list_snoc(events_model.subrange(0, i as int), events_model[i as int]);
            assert(events_model.subrange(0, i as int).push(events_model[i as int])
                =~= events_model.subrange(0, i as int + 1));
            assert(out@ =~= base3 + enc_str_list(events_model.subrange(0, i as int + 1)));
        }
        i = i + 1;
    }
    proof {
        assert(events_model.subrange(0, events_model.len() as int) =~= events_model);
        assert(out@ =~= enc_effects(e@));
    }
    out
}

/// The serialized text of a checkpoint summary.
pub fn encode_checkpoint(c: &CheckpointSummary) -> (r: String)
    ensures
        r@ == enc_checkpoint(c@),
        checkpoint_ok(c@),
{
    let mut out = String::new();
    append_num(&mut out, c.sequence_number);
    append_num(&mut out, c.transaction_count as u64);
    append_str_enc(&mut out, c.root_digest.as_str());
    proof {
        assert(out@ =~= enc_checkpoint(c@));
    }
    out
}

// ---------------------------------------------------------------------------
// Executable decoding
// ---------------------------------------------------------------------------

/// The input from character `pos` on.
pub open spec fn suffix(s: Seq<char>, pos: int) -> Seq<char> {
    s.subrange(pos, s.len() as int)
}

/// Reads a length-prefixed string starting at `pos`.
fn dec_str_at(s: &str, pos: usize) -> (r: Option<(String, usize)>)
    requires
        pos <= s@.len(),
    ensures
        match r {
            Some((v, np)) => pos <= np <= s@.len() && dec_str(suffix(s@, pos as int)) == Some(
                (v@, suffix(s@, np as int)),
            ),
            None => dec_str(suffix(s@, pos as int)) is None,
        },
{
    match parse_dec_at(s, pos) {
        None => None,
        Some((lv, p1)) => {
            if lv > usize::MAX as u64 {
                return None;
            }
            let l = lv as usize;
            let n = s.unicode_len();
            if l > n - p1 {
                proof {
                    assert(suffix(s@, p1 as int).len() < lv);
                }
                return None;
            }
            let sub = s.substring_char(p1, p1 + l);
            proof {
                assert(suffix(s@, p1 as int).subrange(0, lv as int) =~= s@.subrange(
                    p1 as int,
                    p1 as int + l as int,
                ));
                assert(suffix(s@, p1 as int).subrange(lv as int, suffix(s@, p1 as int).len() as int)
                    =~= suffix(s@, (p1 + l) as int));
            }
            Some((sub.to_owned(), p1 + l))
        },
    }
}

/// Reads an ownership tag starting at `pos`.
fn dec_owner_at(s: &str, pos: usize) -> (r: Option<(Owner, usize)>)
    requires
        pos <= s@.len(),
    ensures
        match r {
            Some((v, np)) => pos <= np <= s@.len() && dec_owner(suffix(s@, pos as int)) == Some(
                (v@, suffix(s@, np as int)),
            ),
            None => dec_owner(suffix(s@, pos as int)) is None,
        },
{
    let n = s.unicode_len();
    if pos >= n {
        return None;
    }
    let c = s.get_char(pos);
    proof {
        assert(suffix(s@, pos as int)[0] == s@[pos as int]);
        assert(suffix(s@, pos as int).subrange(1, suffix(s@, pos as int).len() as int) =~= suffix(
            s@,
            pos as int + 1,
        ));
    }
    if c == 'a' {
        match dec_str_at(s, pos + 1) {
            Some((a, np)) => Some((Owner::Address(a), np)),
            None => None,
        }
    } else if c == 's' {
        Some((Owner::Shared, pos + 1))
    } else if c == 'i' {
        Some((Owner::Immutable, pos + 1))
    } else {
        None
    }
}

/// Reads `n` length-prefixed strings starting at `pos`.
fn dec_str_list_at(s: &str, pos: usize, n: u64) -> (r: Option<(Vec<String>, usize)>)
    requires
        pos <= s@.len(),
    ensures
        match r {
            Some((v, np)) => pos <= np <= s@.len() && dec_str_list(suffix(s@, pos as int), n as nat)
                == Some((v.deep_view(), suffix(s@, np as int))),
            None => dec_str_list(suffix(s@, pos as int), n as nat) is None,
        },
{
    let mut v: Vec<String> = Vec::new();
    let mut p = pos;
    let mut i: u64 = 0;
    proof {
        assert(v.deep_view() =~= Seq::<Seq<char>>::empty());
    }
    while i < n
        invariant
            0 <= i <= n,
            pos <= p <= s@.len(),
            dec_str_list(suffix(s@, pos as int), n as nat) == (match dec_str_list(
                suffix(s@, p as int),
                (n - i) as nat,
            ) {
                Option::Some((l, rest)) => Option::Some(
                    (v.deep_view() + l, rest),
                ),
                Option::None => Option::<(Seq<Seq<char>>, Seq<char>)>::None,
            }),
        decreases n - i,
    {
        match dec_str_at(s, p) {
            None => {
                proof {
                    assert(dec_str_list(suffix(s@, p as int), (n - i) as nat) is None);
                }
                return None;
            },
            Some((x, np)) => {
                proof {
                    let k = (n - i) as nat;
                    assert(dec_str_list(suffix(s@, p as int), k) == (match dec_str_list(
                        suffix(s@, np as int),
                        (k - 1) as nat,
                    ) {
                        Option::Some((l, rest)) => Option::Some((seq![x@] + l, rest)),
                        Option::None => Option::<(Seq<Seq<char>>, Seq<char>)>::None,
                    }));
                }
                let ghost prev = v.deep_view();
                v.push(x);
                proof {
                    assert(v.deep_view() =~= prev.push(x@));
                    match dec_str_list(suffix(s@, np as int), (n - i - 1) as nat) {
                        Option::Some((l, rest)) => {
                            assert(prev + (seq![x@] + l) =~= v.deep_view() + l);
                        },
                        Option::None => {},
                    }
                }
                p = np;
                i = i + 1;
            },
        }
    }
    proof {
        assert(dec_str_list(suffix(s@, p as int), 0) == Option::<(Seq<Seq<char>>, Seq<char>)>::Some(
            (Seq::<Seq<char>>::empty(), suffix(s@, p as int)),
        ));
        assert(v.deep_view() + Seq::<Seq<char>>::empty() =~= v.deep_view());
    }
    Some((v, p))
}

/// Reads an object payload starting at `pos`.
fn dec_data_at(s: &str, pos: usize) -> (r: Option<(ObjectData, usize)>)
    requires
        pos <= s@.len(),
    ensures
        match r {
            Some((v, np)) => pos <= np <= s@.len() && dec_data(suffix(s@, pos as int)) == Some(
                (v@, suffix(s@, np as int)),
            ),
            None => dec_data(suffix(s@, pos as int)) is None,
        },
{
    let n = s.unicode_len();
    if pos >= n {
        return None;
    }
    let c = s.get_char(pos);
    proof {
        assert(suffix(s@, pos as int)[0] == s@[pos as int]);
        assert(suffix(s@, pos as int).subrange(1, suffix(s@, pos as int).len() as int) =~= suffix(
            s@,
            pos as int + 1,
        ));
    }
    if c == 'c' {
        match parse_dec_at(s, pos + 1) {
            Some((b, np)) => Some((ObjectData::Coin { balance: b }, np)),
            None => None,
        }
    } else if c == 'p' {
        match parse_dec_at(s, pos + 1) {
            Some((cnt, p1)) => {
                if cnt > usize::MAX as u64 {
                    return None;
                }
                match dec_str_list_at(s, p1, cnt) {
                    Some((modules, np)) => Some((ObjectData::Package { modules }, np)),
                    None => None,
                }
            },
            None => None,
        }
    } else if c == 'm' {
        match dec_str_at(s, pos + 1) {
            Some((type_tag, p1)) => match dec_str_at(s, p1) {
                Some((fields, np)) => Some((ObjectData::MoveStruct { type_tag, fields }, np)),
                None => None,
            },
            None => None,
        }
    } else {
        None
    }
}

/// Reads one object starting at `pos`.
fn dec_obj_at(s: &str, pos: usize) -> (r: Option<(SuiObject, usize)>)
    requires
        pos <= s@.len(),
    ensures
        match r {
            Some((v, np)) => pos <= np <= s@.len() && dec_obj(suffix(s@, pos as int)) == Some(
                (v@, suffix(s@, np as int)),
            ),
            None => dec_obj(suffix(s@, pos as int)) is None,
        },
{
    match dec_str_at(s, pos) {
        None => None,
        Some((id, p1)) => match parse_dec_at(s, p1) {
            None => None,
            Some((version, p2)) => match dec_owner_at(s, p2) {
                None => None,
                Some((owner, p3)) => match dec_data_at(s, p3) {
                    None => None,
                    Some((data, np)) => Some(
                        (SuiObject { id: ObjectID(id), version, owner, data }, np),
                    ),
                },
            },
        },
    }
}

/// Reads `n` objects starting at `pos`.
fn dec_obj_list_at(s: &str, pos: usize, n: u64) -> (r: Option<(Vec<SuiObject>, usize)>)
    requires
        pos <= s@.len(),
    ensures
        match r {
            Some((v, np)) => pos <= np <= s@.len() && dec_obj_list(suffix(s@, pos as int), n as nat)
                == Some((v.deep_view(), suffix(s@, np as int))),
            None => dec_obj_list(suffix(s@, pos as int), n as nat) is None,
        },
{
    let mut v: Vec<SuiObject> = Vec::new();
    let mut p = pos;
    let mut i: u64 = 0;
    proof {
        assert(v.deep_view() =~= Seq::<ObjectView>::empty());
    }
    while i < n
        invariant
            0 <= i <= n,
            pos <= p <= s@.len(),
            dec_obj_list(suffix(s@, pos as int), n as nat) == (match dec_obj_list(
                suffix(s@, p as int),
                (n - i) as nat,
            ) {
                Option::Some((l, rest)) => Option::Some(
                    (v.deep_view() + l, rest),
                ),
                Option::None => Option::<(Seq<ObjectView>, Seq<char>)>::None,
            }),
        decreases n - i,
    {
        match dec_obj_at(s, p) {
            None => {
                proof {
                    assert(dec_obj_list(suffix(s@, p as int), (n - i) as nat) is None);
                }
                return None;
            },
            Some((x, np)) => {
                proof {
                    let k = (n - i) as nat;
                    assert(dec_obj_list(suffix(s@, p as int), k) == (match dec_obj_list(
                        suffix(s@, np as int),
                        (k - 1) as nat,
                    ) {
                        Option::Some((l, rest)) => Option::Some((seq![x@] + l, rest)),
                        Option::None => Option::<(Seq<ObjectView>, Seq<char>)>::None,
                    }));
                }
                let ghost prev = v.deep_view();
                let ghost xv = x@;
                v.push(x);
                proof {
                    assert(v.deep_view() =~= prev.push(xv));
                    match dec_obj_list(suffix(s@, np as int), (n - i - 1) as nat) {
                        Option::Some((l, rest)) => {
                            assert(prev + (seq![xv] + l) =~= v.deep_view() + l);
                        },
                        Option::None => {},
                    }
                }
                p = np;
                i = i + 1;
            },
        }
    }
    proof {
        assert(dec_obj_list(suffix(s@, p as int), 0) == Option::<(Seq<ObjectView>, Seq<char>)>::Some(
            (Seq::<ObjectView>::empty(), suffix(s@, p as int)),
        ));
        assert(v.deep_view() + Seq::<ObjectView>::empty() =~= v.deep_view());
    }
    Some((v, p))
}

/// Decodes an effects record from its serialized text; inverts
/// `encode_effects` exactly.
pub fn decode_effects(s: &str) -> (r: Option<TransactionEffects>)
    ensures
        match r {
            Some(e) => dec_effects(s@) == Some(e@),
            None => dec_effects(s@) is None,
        },
{
    proof {
        assert(suffix(s@, 0) =~= s@);
    }
    let n = s.unicode_len();
    match dec_str_at(s, 0) {
        None => None,
        Some((digest, p1)) => match parse_dec_at(s, p1) {
            None => None,
            Some((nc, p2)) => {
                if nc > usize::MAX as u64 {
                    return None;
                }
                match dec_obj_list_at(s, p2, nc) {
                    None => None,
                    Some((created, p3)) => match parse_dec_at(s, p3) {
                        None => None,
                        Some((nm, p4)) => {
                            if nm > usize::MAX as u64 {
                                return None;
                            }
                            match dec_obj_list_at(s, p4, nm) {
                                None => None,
                                Some((mutated, p5)) => match parse_dec_at(s, p5) {
                                    None => None,
                                    Some((ne, p6)) => {
                                        if ne > usize::MAX as u64 {
                                            return None;
                                        }
                                        match dec_str_list_at(s, p6, ne) {
                                            None => None,
                                            Some((events, p7)) => {
                                                if p7 != n {
                                                    proof {
                                                        assert(suffix(s@, p7 as int).len() != 0);
                                                    }
                                                    return None;
                                                }
                                                proof {
                                                    assert(suffix(s@, p7 as int).len() == 0);
                                                }
                                                Some(
                                                    TransactionEffects {
                                                        digest: TransactionDigest(digest),
                                                        created,
                                                        mutated,
                                                        events,
                                                    },
                                                )
                                            },
                                        }
                                    },
                                },
                            }
                        },
                    },
                }
            },
        },
    }
}

/// Decodes a checkpoint summary from its serialized text; inverts
/// `encode_checkpoint` exactly.
pub fn decode_checkpoint(s: &str) -> (r: Option<CheckpointSummary>)
    ensures
        match r {
            Some(c) => dec_checkpoint(s@) == Some(c@),
            None => dec_checkpoint(s@) is None,
        },
{
    proof {
        assert(suffix(s@, 0) =~= s@);
    }
    let n = s.unicode_len();
    match parse_dec_at(s, 0) {
        None => None,
        Some((sn, p1)) => match parse_dec_at(s, p1) {
            None => None,
            Some((tc, p2)) => {
                if tc > usize::MAX as u64 {
                    return None;
                }
                match dec_str_at(s, p2) {
                    None => None,
                    Some((root, p3)) => {
                        if p3 != n {
                            proof {
                                assert(suffix(s@, p3 as int).len() != 0);
                            }
                            return None;
                        }
                        proof {
                            assert(suffix(s@, p3 as int).len() == 0);
                        }
                        Some(
                            CheckpointSummary {
                                sequence_number: sn,
                                transaction_count: tc as usize,
                                root_digest: root,
                            },
                        )
                    },
                }
            },
        },
    }
}

} // verus!
