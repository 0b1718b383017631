//! What gets written and under which name: the target file names, the
//! never-overwrite rule, the one-day file, and the month file assembled from
//! every day's outcome with the fail-fast rule — one missing day and no
//! month text is produced.

use vstd::prelude::*;
use crate::dates::Date;
use crate::dates::MAX_YEAR;
use crate::dates::spec_date_valid;
use crate::dates::spec_days_in_month;
use crate::iso::spec_format_date;
use crate::iso::spec_format_year_month;
use crate::iso::format_date;
use crate::iso::format_year_month;
use crate::json::JsonValue;
use crate::project::Reading;
use crate::project::ReadingView;
use crate::project::spec_views;
use crate::project::spec_project;
use crate::project::project_day;
use crate::render::spec_quote;
use crate::render::spec_render_readings;
use crate::render::append_quoted;
use crate::render::append_readings;

verus! {

/// What to do about a target file: write it, or leave an existing one
/// untouched. A file, once present, is never overwritten; its presence is
/// the sole idempotence guard.
#[derive(Clone, Copy, PartialEq, Eq, Structural, Debug)]
pub enum WritePlan {
    Write,
    Skip,
}

/// Decides against the target's presence: an existing file is skipped,
/// never rewritten.
pub fn plan_write(target_exists: bool) -> (p: WritePlan)
    ensures
        p == (if target_exists {
            WritePlan::Skip
        } else {
            WritePlan::Write
        }),
{
    if target_exists {
        WritePlan::Skip
    } else {
        WritePlan::Write
    }
}

/// The name of a day's output file: `YYYY-MM-DD.json`.
pub open spec fn spec_day_file_name(d: Date) -> Seq<char> {
    spec_format_date(d) + ".json"@
}

pub fn day_file_name(d: &Date) -> (r: String)
    requires
        spec_date_valid(*d),
    ensures
        r@ == spec_day_file_name(*d),
{
    let mut out = format_date(d);
    out.append(".json");
    out
}

/// The name of a month's output file: `YYYY-MM.json`.
pub open spec fn spec_month_file_name(year: int, month: int) -> Seq<char> {
    spec_format_year_month(year, month) + ".json"@
}

pub fn month_file_name(year: u32, month: u32) -> (r: String)
    requires
        year <= MAX_YEAR,
        1 <= month <= 12,
    ensures
        r@ == spec_month_file_name(year as int, month as int),
{
    let mut out = format_year_month(year, month);
    out.append(".json");
    out
}

/// One day's entry in an output file: the quoted ISO date, a colon, the
/// readings array.
pub open spec fn spec_day_entry(d: Date, rs: Seq<ReadingView>) -> Seq<char> {
    spec_quote(spec_format_date(d)) + seq![':'] + spec_render_readings(rs)
}

/// A day file's whole text: one entry, keyed by the day.
pub open spec fn spec_day_file(d: Date, rs: Seq<ReadingView>) -> Seq<char> {
    seq!['{'] + spec_day_entry(d, rs) + seq!['}']
}

/// The text of the one-day output file for the given readings.
pub fn day_file_content(d: &Date, rs: &Vec<Reading>) -> (r: String)
    requires
        spec_date_valid(*d),
    ensures
        r@ == spec_day_file(*d, spec_views(rs@)),
{
    proof {
        reveal_strlit("{");
        reveal_strlit(":");
        reveal_strlit("}");
    }
    let mut out: String = "{".to_owned();
    let ds = format_date(d);
    append_quoted(&mut out, ds.as_str());
    out.append(":");
    append_readings(&mut out, rs);
    out.append("}");
    proof {
        assert(out@ =~= spec_day_file(*d, spec_views(rs@)));
    }
    out
}

/// The body of a month file: one entry per day, day 1 first, comma-separated.
pub open spec fn spec_month_body(year: int, month: int, projs: Seq<Seq<ReadingView>>) -> Seq<
    char,
>
    decreases projs.len(),
{
    if projs.len() == 0 {
        Seq::empty()
    } else if projs.len() == 1 {
        spec_day_entry(Date { year: year as u32, month: month as u32, day: 1 }, projs[0])
    } else {
        spec_month_body(year, month, projs.drop_last()) + seq![','] + spec_day_entry(
            Date { year: year as u32, month: month as u32, day: projs.len() as u32 },
            projs.last(),
        )
    }
}

/// A month file's whole text, given each day's projected readings in
/// calendar order.
pub open spec fn spec_month_file(year: int, month: int, projs: Seq<Seq<ReadingView>>) -> Seq<
    char,
> {
    seq!['{'] + spec_month_body(year, month, projs) + seq!['}']
}

/// What each day's projection would be, for a month's worth of fetch
/// outcomes.
pub open spec fn spec_month_projs(outcomes: Seq<Option<JsonValue>>) -> Seq<Seq<ReadingView>> {
    Seq::new(outcomes.len(), |i: int| spec_project(outcomes[i].unwrap()))
}

/// Builds the month file's text out of one fetch outcome per day of the
/// month, in calendar order. One failed day — one `None` — and no text is
/// produced at all: the month aborts rather than persist a partial result.
pub fn assemble_month(year: u32, month: u32, outcomes: &Vec<Option<JsonValue>>) -> (r: Option<
    String,
>)
    requires
        year <= MAX_YEAR,
        1 <= month <= 12,
        outcomes@.len() == spec_days_in_month(year as int, month as int),
    ensures
        r is Some <==> (forall|i: int| 0 <= i < outcomes@.len() ==> outcomes@[i] is Some),
        r is Some ==> r.unwrap()@ == spec_month_file(
            year as int,
            month as int,
            spec_month_projs(outcomes@),
        ),
{
    proof {
        reveal_strlit("{");
        reveal_strlit(":");
        reveal_strlit(",");
        reveal_strlit("}");
    }
    let ghost projs = spec_month_projs(outcomes@);
    let mut out: String = "{".to_owned();
    let n = outcomes.len();
    let mut i: usize = 0;
    proof {
        assert(projs.take(0) =~= Seq::<Seq<ReadingView>>::empty());
    }
    while i < n
        invariant
            0 <= i <= n,
            n == outcomes@.len(),
            n == spec_days_in_month(year as int, month as int),
            year <= MAX_YEAR,
            1 <= month <= 12,
            projs == spec_month_projs(outcomes@),
            forall|j: int| 0 <= j < i ==> outcomes@[j] is Some,
            out@ == seq!['{'] + spec_month_body(year as int, month as int, projs.take(i as int)),
        decreases n - i,
    {
        proof {
            reveal_strlit(":");
            reveal_strlit(",");
            assert(projs.take(i + 1).drop_last() =~= projs.take(i as int));
            assert(projs.take(i + 1).last() == projs[i as int]);
        }
        match &outcomes[i] {
            Some(v) => {
                if i > 0 {
                    out.append(",");
                }
                let d = Date { year, month, day: (i + 1) as u32 };
                let ds = format_date(&d);
                append_quoted(&mut out, ds.as_str());
                out.append(":");
                let rs = project_day(v);
                append_readings(&mut out, &rs);
                proof {
                    assert(spec_views(rs@) == projs[i as int]);
                    assert(out@ =~= seq!['{'] + spec_month_body(
                        year as int,
                        month as int,
                        projs.take(i + 1),
                    ));
                }
            },
            None => {
                proof {
                    assert(outcomes@[i as int] is None);
                }
                return None;
            },
        }
        i = i + 1;
    }
    out.append("}");
    proof {
        assert(projs.take(n as int) =~= projs);
        assert(out@ =~= spec_month_file(year as int, month as int, projs));
    }
    Some(out)
}

} // verus!
