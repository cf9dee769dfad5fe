use std::marker::PhantomData;

use vstd::prelude::*;
use vstd::string::StrSliceExecFns;
use vstd::utf8::encode_utf8;

use crate::cfg_model::StationSpec;
use crate::rt_model::{Destination, VisitStatus};

verus! {

/// The icon that shows a visit status.
pub open spec fn status_icon_spec(status: VisitStatus) -> Seq<char> {
    match status {
        VisitStatus::NotReady => "⏰"@,
        VisitStatus::ParentFail => "☠️"@,
        VisitStatus::Queued => "⏳"@,
        VisitStatus::InProgress => "⏳"@,
        VisitStatus::VisitUnnecessary | VisitStatus::VisitSuccess => "✅"@,
        VisitStatus::CheckFail | VisitStatus::VisitFail => "❌"@,
    }
}

/// The line that shows a station: `"{icon} {name}: {description}\n"`.
pub open spec fn station_status_line_spec(
    status: VisitStatus,
    name: Seq<char>,
    description: Seq<char>,
) -> Seq<char> {
    status_icon_spec(status) + " "@ + name + ": "@ + description + "\n"@
}

/// The lines of stations `0 .. n` that have a visit status, in order of
/// their runtime identifiers.
pub open spec fn station_statuses_text<C, V>(
    specs: Seq<StationSpec<C, V>>,
    statuses: Map<usize, VisitStatus>,
    n: nat,
) -> Seq<char>
    decreases n,
{
    if n == 0 {
        Seq::empty()
    } else {
        let prev = station_statuses_text(specs, statuses, (n - 1) as nat);
        let k = (n - 1) as usize;
        if (n - 1) <= usize::MAX && statuses.contains_key(k) {
            prev + station_status_line_spec(
                statuses[k],
                specs[k as int].spec_name(),
                specs[k as int].spec_description(),
            )
        } else {
            prev
        }
    }
}

/// Every station with progress gets its line, in order: the text of
/// stations `0 .. m` starts the text of stations `0 .. n` for `m <= n`, and
/// station `k`'s line stands in the text of `0 .. n` right after the text of
/// `0 .. k`, for every `k` below `n` that has a status.
pub proof fn lemma_station_statuses_has_every_line<C, V>(
    specs: Seq<StationSpec<C, V>>,
    statuses: Map<usize, VisitStatus>,
    n: nat,
)
    ensures
        forall|m: nat|
            m <= n ==> #[trigger] station_statuses_text(specs, statuses, m).len()
                <= station_statuses_text(specs, statuses, n).len() && station_statuses_text(
                specs,
                statuses,
                n,
            ).subrange(0, station_statuses_text(specs, statuses, m).len() as int)
                == station_statuses_text(specs, statuses, m),
        forall|k: usize|
            (k as int) < n && #[trigger] statuses.contains_key(k) ==> {
                let start = station_statuses_text(specs, statuses, k as nat).len() as int;
                let line = station_status_line_spec(
                    statuses[k],
                    specs[k as int].spec_name(),
                    specs[k as int].spec_description(),
                );
                &&& start + line.len() <= station_statuses_text(specs, statuses, n).len()
                &&& station_statuses_text(specs, statuses, n).subrange(start, start + line.len())
                    == line
            },
    decreases n,
{
    if n > 0 {
        lemma_station_statuses_has_every_line(specs, statuses, (n - 1) as nat);
        let t = station_statuses_text(specs, statuses, n);
        let prev = station_statuses_text(specs, statuses, (n - 1) as nat);
        assert(t.subrange(0, prev.len() as int) =~= prev);
        assert forall|m: nat| m <= n implies #[trigger] station_statuses_text(
            specs,
            statuses,
            m,
        ).len() <= t.len() && t.subrange(
            0,
            station_statuses_text(specs, statuses, m).len() as int,
        ) == station_statuses_text(specs, statuses, m) by {
            if m < n {
                let tm = station_statuses_text(specs, statuses, m);
                assert(prev.subrange(0, tm.len() as int) == tm);
                assert(t.subrange(0, tm.len() as int) =~= prev.subrange(0, tm.len() as int));
            } else {
                assert(t.subrange(0, t.len() as int) =~= t);
            }
        }
        assert forall|k: usize| (k as int) < n && #[trigger] statuses.contains_key(k) implies {
            let start = station_statuses_text(specs, statuses, k as nat).len() as int;
            let line = station_status_line_spec(
                statuses[k],
                specs[k as int].spec_name(),
                specs[k as int].spec_description(),
            );
            &&& start + line.len() <= t.len()
            &&& t.subrange(start, start + line.len()) == line
        } by {
            let start = station_statuses_text(specs, statuses, k as nat).len() as int;
            let line = station_status_line_spec(
                statuses[k],
                specs[k as int].spec_name(),
                specs[k as int].spec_description(),
            );
            if (k as int) < n - 1 {
                assert(prev.subrange(start, start + line.len()) == line);
                assert(t.subrange(start, start + line.len()) =~= prev.subrange(start, start + line.len()));
            } else {
                assert(k as nat == (n - 1) as nat);
                assert(t == prev + line);
                assert(t.subrange(start, start + line.len()) =~= line);
            }
        }
    }
}

/// The byte strings of `parts`, one after the other.
pub open spec fn concat_bytes(parts: Seq<Seq<u8>>) -> Seq<u8>
    decreases parts.len(),
{
    if parts.len() == 0 {
        Seq::empty()
    } else {
        concat_bytes(parts.drop_last()) + parts.last()
    }
}

/// Joining byte strings keeps each whole and in order: nothing joined is
/// empty, one part joined is that part, and joining two runs of parts is
/// joining the two results.
pub proof fn lemma_concat_bytes(a: Seq<Seq<u8>>, b: Seq<Seq<u8>>, x: Seq<u8>)
    ensures
        concat_bytes(Seq::<Seq<u8>>::empty()) == Seq::<u8>::empty(),
        concat_bytes(seq![x]) == x,
        concat_bytes(a + b) == concat_bytes(a) + concat_bytes(b),
    decreases b.len(),
{
    assert(seq![x].drop_last() =~= Seq::<Seq<u8>>::empty());
    assert(Seq::<u8>::empty() + x =~= x);
    if b.len() == 0 {
        assert(a + b =~= a);
        assert(concat_bytes(a) + Seq::<u8>::empty() =~= concat_bytes(a));
    } else {
        lemma_concat_bytes(a, b.drop_last(), x);
        assert((a + b).drop_last() =~= a + b.drop_last());
        assert((a + b).last() == b.last());
        assert(concat_bytes(a + b) =~= concat_bytes(a) + concat_bytes(b));
    }
}

/// The bytes of each of `parts`.
pub open spec fn views_of(parts: Seq<Vec<u8>>) -> Seq<Seq<u8>> {
    parts.map_values(|v: Vec<u8>| v@)
}

/// Format trait for plain text.
///
/// `W` is the writer that the text goes to; writing it is left to the
/// caller.
#[derive(Debug)]
pub struct PlainTextFormatter<W, E>(PhantomData<(W, E)>);

impl<W, E> PlainTextFormatter<W, E> {
    /// Returns the icon that shows a visit status.
    pub fn status_icon(status: VisitStatus) -> (icon: &'static str)
        ensures
            icon@ == status_icon_spec(status),
    {
        match status {
            VisitStatus::NotReady => "⏰",
            VisitStatus::ParentFail => "☠️",
            VisitStatus::Queued => "⏳",
            VisitStatus::InProgress => "⏳",
            VisitStatus::VisitUnnecessary | VisitStatus::VisitSuccess => "✅",
            VisitStatus::CheckFail | VisitStatus::VisitFail => "❌",
        }
    }

    /// Returns the line that shows a station with the given status, name and
    /// description.
    pub fn station_status_line(status: VisitStatus, name: &str, description: &str) -> (line: String)
        ensures
            line@ == station_status_line_spec(status, name@, description@),
    {
        let mut line = Self::status_icon(status).to_owned();
        line.append(" ");
        line.append(name);
        line.append(": ");
        line.append(description);
        line.append("\n");
        line
    }

    /// Returns the lines that show every station of `dest` that has
    /// progress, in order of their runtime identifiers.
    pub fn station_statuses<C, V>(dest: &Destination<C, V, E>) -> (text: String)
        ensures
            text@ == station_statuses_text(
                dest.specs().specs(),
                dest.statuses(),
                dest.specs().specs().len(),
            ),
    {
        let n = dest.station_specs().node_count();
        let mut text = String::new();
        let mut i: usize = 0;
        while i < n
            invariant
                i <= n,
                n == dest.specs().specs().len(),
                text@ == station_statuses_text(dest.specs().specs(), dest.statuses(), i as nat),
            decreases n - i,
        {
            match dest.station_progresses().visit_status(i) {
                Some(status) => {
                    let spec = dest.station_specs().get(i).unwrap();
                    let line = Self::station_status_line(status, spec.name(), spec.description());
                    text.append(line.as_str());
                },
                None => {},
            }
            i += 1;
        }
        text
    }

    /// Returns the bytes of the errors of a report, given each error as
    /// rendered for display, in the report's order: the renderings one after
    /// the other.
    pub fn fmt_errors(rendered_errors: &Vec<Vec<u8>>) -> (out: Vec<u8>)
        ensures
            out@ == concat_bytes(views_of(rendered_errors@)),
    {
        let mut out: Vec<u8> = Vec::new();
        Self::append_errors(&mut out, rendered_errors);
        assert(out@ =~= concat_bytes(views_of(rendered_errors@)));
        out
    }

    /// Returns the bytes of the whole report of a train: the status line of
    /// every station of `dest` that has progress, in order of their runtime
    /// identifiers, encoded as UTF-8, then the errors of the report, given
    /// each as rendered for display, in the report's order.
    pub fn fmt<C, V>(dest: &Destination<C, V, E>, rendered_errors: &Vec<Vec<u8>>) -> (out: Vec<u8>)
        ensures
            out@ == encode_utf8(
                station_statuses_text(
                    dest.specs().specs(),
                    dest.statuses(),
                    dest.specs().specs().len(),
                ),
            ) + concat_bytes(views_of(rendered_errors@)),
    {
        let text = Self::station_statuses(dest);
        let mut out = text.as_str().as_bytes_vec();
        Self::append_errors(&mut out, rendered_errors);
        out
    }

    /// Appends the renderings to `out`, one after the other.
    fn append_errors(out: &mut Vec<u8>, rendered_errors: &Vec<Vec<u8>>)
        ensures
            final(out)@ == old(out)@ + concat_bytes(views_of(rendered_errors@)),
    {
        let ghost start = out@;
        let mut i: usize = 0;
        assert(start + concat_bytes(views_of(rendered_errors@.take(0))) =~= start);
        while i < rendered_errors.len()
            invariant
                i <= rendered_errors@.len(),
                out@ == start + concat_bytes(views_of(rendered_errors@.take(i as int))),
            decreases rendered_errors@.len() - i,
        {
            let part = &rendered_errors[i];
            let ghost before = out@;
            let mut j: usize = 0;
            while j < part.len()
                invariant
                    j <= part@.len(),
                    out@ == before + part@.take(j as int),
                decreases part@.len() - j,
            {
                out.push(part[j]);
                assert(part@.take(j + 1) =~= part@.take(j as int).push(part@[j as int]));
                j += 1;
            }
            proof {
                let prev = views_of(rendered_errors@.take(i as int));
                let next = views_of(rendered_errors@.take(i + 1));
                assert(next.drop_last() =~= prev);
                assert(next.last() == part@);
                assert(part@.take(j as int) =~= part@);
                assert(out@ =~= start + concat_bytes(next));
            }
            i += 1;
        }
        assert(rendered_errors@.take(i as int) =~= rendered_errors@);
    }
}

} // verus!
