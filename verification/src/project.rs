//! The projection over the upstream response: flatten the lectures of every
//! mass, keep those typed `evangile`, and carry three string fields out of
//! each. A response of an unexpected shape projects to the empty sequence;
//! this never fails.

use vstd::prelude::*;
use crate::json::JsonValue;
use crate::json::spec_lookup;
use crate::json::lookup;

verus! {

/// One Gospel reading: its scripture reference, its title and its text.
#[derive(Debug)]
pub struct Reading {
    pub reference: String,
    pub title: String,
    pub content: String,
}

/// The mathematical content of a `Reading`.
pub ghost struct ReadingView {
    pub reference: Seq<char>,
    pub title: Seq<char>,
    pub content: Seq<char>,
}

impl View for Reading {
    type V = ReadingView;

    open spec fn view(&self) -> ReadingView {
        ReadingView { reference: self.reference@, title: self.title@, content: self.content@ }
    }
}

/// The views of a sequence of readings.
pub open spec fn spec_views(rs: Seq<Reading>) -> Seq<ReadingView> {
    rs.map_values(|x: Reading| x@)
}

/// The named field of a lecture as a string; empty when the lecture is no
/// object, the field is absent, or the field is no string.
pub open spec fn spec_str_field(l: JsonValue, key: Seq<char>) -> Seq<char> {
    match l {
        JsonValue::Object(fields) => match spec_lookup(fields@, key) {
            Some(JsonValue::Str(s)) => s@,
            _ => Seq::empty(),
        },
        _ => Seq::empty(),
    }
}

/// Whether a lecture carries `"type": "evangile"`.
pub open spec fn spec_is_gospel(l: JsonValue) -> bool {
    match l {
        JsonValue::Object(fields) => match spec_lookup(fields@, "type"@) {
            Some(JsonValue::Str(s)) => s@ == "evangile"@,
            _ => false,
        },
        _ => false,
    }
}

/// The reading projected out of one lecture.
pub open spec fn spec_reading_of(l: JsonValue) -> ReadingView {
    ReadingView {
        reference: spec_str_field(l, "ref"@),
        title: spec_str_field(l, "titre"@),
        content: spec_str_field(l, "contenu"@),
    }
}

/// What one lecture contributes: its reading if it is Gospel-typed, else
/// nothing.
pub open spec fn spec_lecture_entry(l: JsonValue) -> Seq<ReadingView> {
    if spec_is_gospel(l) {
        seq![spec_reading_of(l)]
    } else {
        Seq::empty()
    }
}

/// The readings of a list of lectures, in the list's order.
pub open spec fn spec_lectures_readings(ls: Seq<JsonValue>) -> Seq<ReadingView>
    decreases ls.len(),
{
    if ls.len() == 0 {
        Seq::empty()
    } else {
        spec_lectures_readings(ls.drop_last()) + spec_lecture_entry(ls.last())
    }
}

/// The readings of one mass: those of its `lectures` array, or none when
/// that field is absent or no array.
pub open spec fn spec_messe_readings(m: JsonValue) -> Seq<ReadingView> {
    match m {
        JsonValue::Object(fields) => match spec_lookup(fields@, "lectures"@) {
            Some(JsonValue::Array(ls)) => spec_lectures_readings(ls@),
            _ => Seq::empty(),
        },
        _ => Seq::empty(),
    }
}

/// The readings of a list of masses, in the list's order.
pub open spec fn spec_messes_readings(ms: Seq<JsonValue>) -> Seq<ReadingView>
    decreases ms.len(),
{
    if ms.len() == 0 {
        Seq::empty()
    } else {
        spec_messes_readings(ms.drop_last()) + spec_messe_readings(ms.last())
    }
}

/// The whole projection of a day's response: outer order over the masses,
/// inner order over each mass's lectures, Gospel-typed entries only. Any
/// other shape — no object, no `messes` key, `messes` no array — projects to
/// the empty sequence.
pub open spec fn spec_project(v: JsonValue) -> Seq<ReadingView> {
    match v {
        JsonValue::Object(fields) => match spec_lookup(fields@, "messes"@) {
            Some(JsonValue::Array(ms)) => spec_messes_readings(ms@),
            _ => Seq::empty(),
        },
        _ => Seq::empty(),
    }
}

proof fn lemma_views_push(rs: Seq<Reading>, x: Reading)
    ensures
        spec_views(rs.push(x)) == spec_views(rs).push(x@),
{
    assert(spec_views(rs.push(x)) =~= spec_views(rs).push(x@));
}

fn str_field(l: &JsonValue, key: &String) -> (r: String)
    ensures
        r@ == spec_str_field(*l, key@),
{
    match l {
        JsonValue::Object(fields) => match lookup(fields, key) {
            Some(v) => match v {
                JsonValue::Str(s) => s.clone(),
                _ => String::new(),
            },
            None => String::new(),
        },
        _ => String::new(),
    }
}

fn is_gospel(l: &JsonValue) -> (r: bool)
    ensures
        r == spec_is_gospel(*l),
{
    let key: String = "type".to_owned();
    match l {
        JsonValue::Object(fields) => match lookup(fields, &key) {
            Some(v) => match v {
                JsonValue::Str(s) => {
                    let target: String = "evangile".to_owned();
                    *s == target
                },
                _ => false,
            },
            None => false,
        },
        _ => false,
    }
}

fn reading_of(l: &JsonValue) -> (r: Reading)
    ensures
        r@ == spec_reading_of(*l),
{
    let key_ref: String = "ref".to_owned();
    let key_titre: String = "titre".to_owned();
    let key_contenu: String = "contenu".to_owned();
    Reading {
        reference: str_field(l, &key_ref),
        title: str_field(l, &key_titre),
        content: str_field(l, &key_contenu),
    }
}

fn append_lectures(ls: &Vec<JsonValue>, out: &mut Vec<Reading>)
    ensures
        spec_views(final(out)@) == spec_views(old(out)@) + spec_lectures_readings(ls@),
{
    let mut i: usize = 0;
    proof {
        assert(ls@.take(0) =~= Seq::<JsonValue>::empty());
        assert(spec_views(out@) =~= spec_views(out@) + spec_lectures_readings(ls@.take(0)));
    }
    while i < ls.len()
        invariant
            0 <= i <= ls@.len(),
            spec_views(out@) == spec_views(old(out)@) + spec_lectures_readings(
                ls@.take(i as int),
            ),
        decreases ls@.len() - i,
    {
        proof {
            assert(ls@.take(i + 1).drop_last() =~= ls@.take(i as int));
            assert(ls@.take(i + 1).last() == ls@[i as int]);
        }
        let l = &ls[i];
        if is_gospel(l) {
            let rd = reading_of(l);
            proof {
                lemma_views_push(out@, rd);
            }
            out.push(rd);
            proof {
                assert(spec_views(out@) =~= spec_views(old(out)@) + spec_lectures_readings(
                    ls@.take(i + 1),
                ));
            }
        } else {
            proof {
                assert(spec_lecture_entry(ls@[i as int]) =~= Seq::<ReadingView>::empty());
                assert(spec_views(out@) =~= spec_views(old(out)@) + spec_lectures_readings(
                    ls@.take(i + 1),
                ));
            }
        }
        i = i + 1;
    }
    proof {
        assert(ls@.take(ls@.len() as int) =~= ls@);
    }
}

fn append_messe(m: &JsonValue, out: &mut Vec<Reading>)
    ensures
        spec_views(final(out)@) == spec_views(old(out)@) + spec_messe_readings(*m),
{
    let key: String = "lectures".to_owned();
    let mut touched = false;
    match m {
        JsonValue::Object(fields) => match lookup(fields, &key) {
            Some(v) => match v {
                JsonValue::Array(ls) => {
                    append_lectures(ls, out);
                    touched = true;
                },
                _ => {},
            },
            None => {},
        },
        _ => {},
    }
    proof {
        if !touched {
            assert(spec_messe_readings(*m) =~= Seq::<ReadingView>::empty());
            assert(spec_views(out@) =~= spec_views(old(out)@) + spec_messe_readings(*m));
        }
    }
}

/// Projects one day's decoded response down to its Gospel readings,
/// preserving their order. Never fails: a malformed or missing structure
/// yields an empty result.
pub fn project_day(v: &JsonValue) -> (r: Vec<Reading>)
    ensures
        spec_views(r@) == spec_project(*v),
{
    let mut out: Vec<Reading> = Vec::new();
    proof {
        assert(spec_views(out@) =~= Seq::<ReadingView>::empty());
    }
    let key: String = "messes".to_owned();
    let mut touched = false;
    match v {
        JsonValue::Object(fields) => match lookup(fields, &key) {
            Some(jv) => match jv {
                JsonValue::Array(ms) => {
                    let mut i: usize = 0;
                    proof {
                        assert(ms@.take(0) =~= Seq::<JsonValue>::empty());
                    }
                    while i < ms.len()
                        invariant
                            0 <= i <= ms@.len(),
                            spec_views(out@) == spec_messes_readings(ms@.take(i as int)),
                        decreases ms@.len() - i,
                    {
                        proof {
                            assert(ms@.take(i + 1).drop_last() =~= ms@.take(i as int));
                            assert(ms@.take(i + 1).last() == ms@[i as int]);
                        }
                        append_messe(&ms[i], &mut out);
                        i = i + 1;
                    }
                    proof {
                        assert(ms@.take(ms@.len() as int) =~= ms@);
                    }
                    touched = true;
                },
                _ => {},
            },
            None => {},
        },
        _ => {},
    }
    proof {
        if !touched {
            assert(spec_project(*v) =~= Seq::<ReadingView>::empty());
        }
    }
    out
}

/// The projection law: over any list of lectures, the projected readings are
/// exactly the Gospel-typed lectures, each reduced to its reading, in their
/// relative order.
pub proof fn lemma_projection_filters_gospels(ls: Seq<JsonValue>)
    ensures
        spec_lectures_readings(ls) == ls.filter(|l: JsonValue| spec_is_gospel(l)).map_values(
            |l: JsonValue| spec_reading_of(l),
        ),
    decreases ls.len(),
{
    reveal(Seq::filter);
    let pred = |l: JsonValue| spec_is_gospel(l);
    let f = |l: JsonValue| spec_reading_of(l);
    if ls.len() == 0 {
        assert(spec_lectures_readings(ls) =~= ls.filter(pred).map_values(f));
    } else {
        lemma_projection_filters_gospels(ls.drop_last());
        if pred(ls.last()) {
            assert(ls.filter(pred) == ls.drop_last().filter(pred).push(ls.last()));
            assert(ls.filter(pred).map_values(f) =~= ls.drop_last().filter(pred).map_values(
                f,
            ).push(f(ls.last())));
            assert(spec_lectures_readings(ls) =~= ls.filter(pred).map_values(f));
        } else {
            assert(ls.filter(pred) == ls.drop_last().filter(pred));
            assert(spec_lectures_readings(ls) =~= spec_lectures_readings(ls.drop_last()));
            assert(spec_lectures_readings(ls) =~= ls.filter(pred).map_values(f));
        }
    }
}

} // verus!
