//! Properties of the event stream that successive polls produce.
use vstd::prelude::*;
use crate::ns2009::{contact, poll_step, Event, EventKind, FilterModel, TouchModel, LOW_THRESHOLD};

verus! {

/// The readings that one poll takes: pressure, then the two positions.
pub type Reading = (Result<u16, ()>, Result<u16, ()>, Result<u16, ()>);

/// The state and the events after polling with each reading in turn.
pub open spec fn run(m: TouchModel, rs: Seq<Reading>) -> (TouchModel, Seq<Option<Event>>)
    decreases rs.len(),
{
    if rs.len() == 0 {
        (m, Seq::empty())
    } else {
        let (m1, out) = run(m, rs.drop_last());
        let r = rs.last();
        let (m2, e) = poll_step(m1, r.0, r.1, r.2);
        (m2, out.push(e))
    }
}

pub open spec fn is_kind(e: Option<Event>, k: EventKind) -> bool {
    e matches Some(ev) && ev.kind == k
}

/// A reading whose pressure counts as contact and whose positions were read.
pub open spec fn in_range(r: Reading) -> bool {
    r.0 matches Ok(z) && contact(z) && r.1 is Ok && r.2 is Ok
}

/// One event per reading.
pub proof fn lemma_run_len(m: TouchModel, rs: Seq<Reading>)
    ensures
        run(m, rs).1.len() == rs.len(),
    decreases rs.len(),
{
    if rs.len() > 0 {
        lemma_run_len(m, rs.drop_last());
    }
}

/// Polling with pressure readings below the low threshold (or failed ones)
/// never gives a `Begin` or a `Move`, whatever the state.
pub proof fn lemma_low_pressure_gives_no_touch(m: TouchModel, rs: Seq<Reading>)
    requires
        forall|i: int|
            0 <= i < rs.len() ==> match #[trigger] rs[i].0 {
                Ok(z) => z < LOW_THRESHOLD,
                Err(_) => true,
            },
    ensures
        forall|i: int|
            0 <= i < rs.len() ==> !is_kind(#[trigger] run(m, rs).1[i], EventKind::Begin)
                && !is_kind(run(m, rs).1[i], EventKind::Move),
    decreases rs.len(),
{
    if rs.len() > 0 {
        let p = rs.drop_last();
        assert forall|i: int| 0 <= i < p.len() implies match #[trigger] p[i].0 {
            Ok(z) => z < LOW_THRESHOLD,
            Err(_) => true,
        } by {
            assert(p[i] == rs[i]);
        }
        lemma_low_pressure_gives_no_touch(m, p);
        lemma_run_len(m, p);
        assert(rs.last() == rs[rs.len() - 1]);
    }
}

/// Both positions of a reading were read.
pub open spec fn positions_read(r: Reading) -> bool {
    r.1 is Ok && r.2 is Ok
}

/// A reading whose pressure counts as contact.
pub open spec fn touching(r: Reading) -> bool {
    r.0 matches Ok(z) && contact(z)
}

/// `rs[i]` is the first reading of `rs` whose positions were read.
pub open spec fn first_read(rs: Seq<Reading>, i: int) -> bool {
    positions_read(rs[i]) && forall|j: int| 0 <= j < i ==> !positions_read(#[trigger] rs[j])
}

/// In a run of readings that all count as contact and come right after a
/// reading that does not, exactly one poll gives `Begin`: the first one whose
/// positions were read. The touch is then down exactly when some reading of
/// the run had its positions read.
pub proof fn lemma_one_begin_per_touch(
    m: TouchModel,
    z0: u16,
    x0: Result<u16, ()>,
    y0: Result<u16, ()>,
    rs: Seq<Reading>,
)
    requires
        !contact(z0),
        forall|i: int| 0 <= i < rs.len() ==> touching(#[trigger] rs[i]),
    ensures
        forall|i: int|
            0 <= i < rs.len() ==> is_kind(
                #[trigger] run(m, seq![(Ok::<u16, ()>(z0), x0, y0)] + rs).1[i + 1],
                EventKind::Begin,
            ) == first_read(rs, i),
        run(m, seq![(Ok::<u16, ()>(z0), x0, y0)] + rs).0.pressed == exists|i: int|
            0 <= i < rs.len() && positions_read(#[trigger] rs[i]),
    decreases rs.len(),
{
    let head = seq![(Ok::<u16, ()>(z0), x0, y0)];
    let all = head + rs;
    if rs.len() == 0 {
        assert(all =~= head);
        assert(all.drop_last() =~= Seq::<Reading>::empty());
    } else {
        let q = rs.drop_last();
        let p = all.drop_last();
        assert(p =~= head + q);
        assert forall|i: int| 0 <= i < q.len() implies touching(#[trigger] q[i]) by {
            assert(q[i] == rs[i]);
        }
        lemma_one_begin_per_touch(m, z0, x0, y0, q);
        lemma_run_len(m, p);
        let last = rs.len() - 1;
        assert(all.last() == rs[last]);
        let before = run(m, p).0;
        assert(before.pressed == exists|j: int| 0 <= j < last && positions_read(#[trigger] rs[j])) by {
            if before.pressed {
                let j = choose|j: int| 0 <= j < q.len() && positions_read(#[trigger] q[j]);
                assert(q[j] == rs[j]);
            }
            if exists|j: int| 0 <= j < last && positions_read(#[trigger] rs[j]) {
                let j = choose|j: int| 0 <= j < last && positions_read(#[trigger] rs[j]);
                assert(q[j] == rs[j]);
            }
        }
        assert forall|i: int| 0 <= i < rs.len() implies is_kind(
            #[trigger] run(m, all).1[i + 1],
            EventKind::Begin,
        ) == first_read(rs, i) by {
            if i < last {
                assert(run(m, all).1[i + 1] == run(m, p).1[i + 1]);
                assert(is_kind(run(m, p).1[i + 1], EventKind::Begin) == first_read(q, i));
                assert(q[i] == rs[i]);
                assert(first_read(q, i) == first_read(rs, i)) by {
                    assert forall|j: int| 0 <= j < i implies q[j] == rs[j] by {}
                    if first_read(rs, i) {
                        assert forall|j: int| 0 <= j < i implies !positions_read(#[trigger] q[j]) by {
                            assert(q[j] == rs[j]);
                        }
                    }
                }
            } else {
                assert(run(m, all).1[i + 1] == poll_step(before, rs[last].0, rs[last].1, rs[last].2).1);
                if first_read(rs, i) {
                    assert(!before.pressed);
                } else if positions_read(rs[i]) {
                    let j = choose|j: int| 0 <= j < i && positions_read(#[trigger] rs[j]);
                    assert(before.pressed);
                }
            }
        }
        let after = run(m, all).0;
        assert(after == poll_step(before, rs[last].0, rs[last].1, rs[last].2).0);
        if after.pressed {
            if !positions_read(rs[last]) {
                assert(before.pressed);
            }
        }
        if exists|i: int| 0 <= i < rs.len() && positions_read(#[trigger] rs[i]) {
            let i = choose|i: int| 0 <= i < rs.len() && positions_read(#[trigger] rs[i]);
            if i < last {
                assert(before.pressed);
            }
        }
    }
}

/// While a touch is down, a poll whose filtered position equals the last
/// one reported gives no event.
pub proof fn lemma_still_touch_is_quiet(m: TouchModel, r: Reading)
    requires
        m.pressed,
        in_range(r),
        ({
            let pos = m.filter.advanced(r.1->Ok_0, r.2->Ok_0).position();
            pos.0 == m.x && pos.1 == m.y
        }),
    ensures
        poll_step(m, r.0, r.1, r.2).1 is None,
{
}

/// A poll that gives no event leaves the recorded position as it was.
proof fn lemma_quiet_keeps_position(m: TouchModel, r: Reading)
    requires
        poll_step(m, r.0, r.1, r.2).1 is None,
    ensures
        poll_step(m, r.0, r.1, r.2).0.x == m.x,
        poll_step(m, r.0, r.1, r.2).0.y == m.y,
{
}

/// After a `Begin` or `Move` followed only by quiet polls, the recorded
/// position is that of the `Begin` or `Move`.
proof fn lemma_position_of_last_report(m: TouchModel, rs: Seq<Reading>, j: int)
    requires
        0 <= j < rs.len(),
        is_kind(run(m, rs).1[j], EventKind::Begin) || is_kind(run(m, rs).1[j], EventKind::Move),
        forall|i: int| j < i < rs.len() ==> (#[trigger] run(m, rs).1[i]) is None,
    ensures
        run(m, rs).0.x == run(m, rs).1[j]->Some_0.x,
        run(m, rs).0.y == run(m, rs).1[j]->Some_0.y,
    decreases rs.len(),
{
    let p = rs.drop_last();
    lemma_run_len(m, p);
    let last = rs.len() - 1;
    if j < last {
        assert forall|i: int| j < i < p.len() implies (#[trigger] run(m, p).1[i]) is None by {
            assert(run(m, rs).1[i] == run(m, p).1[i]);
        }
        assert(run(m, rs).1[j] == run(m, p).1[j]);
        lemma_position_of_last_report(m, p, j);
        assert(run(m, rs).1[last] is None);
        lemma_quiet_keeps_position(run(m, p).0, rs.last());
    }
}

/// An `End` reports the position of the last `Begin` or `Move` of its touch.
pub proof fn lemma_end_reports_last_position(m: TouchModel, rs: Seq<Reading>, j: int, k: int)
    requires
        0 <= j < k < rs.len(),
        is_kind(run(m, rs).1[j], EventKind::Begin) || is_kind(run(m, rs).1[j], EventKind::Move),
        forall|i: int| j < i < k ==> (#[trigger] run(m, rs).1[i]) is None,
        is_kind(run(m, rs).1[k], EventKind::End),
    ensures
        run(m, rs).1[k]->Some_0.x == run(m, rs).1[j]->Some_0.x,
        run(m, rs).1[k]->Some_0.y == run(m, rs).1[j]->Some_0.y,
{
    let p = rs.take(k + 1);
    lemma_prefix_events(m, rs, k + 1);
    let q = p.drop_last();
    lemma_run_len(m, q);
    assert(p.last() == rs[k]);
    assert(run(m, p).1[k] == run(m, q).1.push(poll_step(run(m, q).0, rs[k].0, rs[k].1, rs[k].2).1)[k]);
    assert forall|i: int| j < i < q.len() implies (#[trigger] run(m, q).1[i]) is None by {
        assert(run(m, q).1[i] == run(m, p).1[i]);
    }
    assert(run(m, q).1[j] == run(m, p).1[j]);
    lemma_position_of_last_report(m, q, j);
}

/// The events of a prefix of the readings are a prefix of the events.
pub proof fn lemma_prefix_events(m: TouchModel, rs: Seq<Reading>, n: int)
    requires
        0 <= n <= rs.len(),
    ensures
        forall|i: int| 0 <= i < n ==> #[trigger] run(m, rs.take(n)).1[i] == run(m, rs).1[i],
        run(m, rs.take(n)).1.len() == n,
    decreases rs.len(),
{
    lemma_run_len(m, rs.take(n));
    if n < rs.len() {
        let p = rs.drop_last();
        assert(p.take(n) =~= rs.take(n));
        lemma_prefix_events(m, p, n);
        lemma_run_len(m, p);
        assert forall|i: int| 0 <= i < n implies run(m, p).1[i] == run(m, rs).1[i] by {}
    } else {
        assert(rs.take(n) =~= rs);
    }
}

/// An `End` leaves the filter as freshly made with the same calibration and
/// window lengths, so the next touch filters its samples as the first one did.
pub proof fn lemma_end_resets_filter(m: TouchModel, z1: Result<u16, ()>, x: Result<u16, ()>, y: Result<u16, ()>)
    requires
        is_kind(poll_step(m, z1, x, y).1, EventKind::End),
    ensures
        poll_step(m, z1, x, y).0.filter == FilterModel::fresh(
            m.filter.cal,
            m.filter.median_len,
            m.filter.mean_len,
        ),
        forall|rx: u16, ry: u16|
            #[trigger] poll_step(m, z1, x, y).0.filter.advanced(rx, ry).position()
                == FilterModel::fresh(m.filter.cal, m.filter.median_len, m.filter.mean_len).advanced(rx, ry).position(),
{
}

/// A failed position read during contact gives no event and changes no
/// state.
pub proof fn lemma_position_failure_is_ignored(m: TouchModel, z: u16, x: Result<u16, ()>, y: Result<u16, ()>)
    requires
        contact(z),
        x is Err || y is Err,
    ensures
        poll_step(m, Ok(z), x, y) == (m, None::<Event>),
{
}

} // verus!
