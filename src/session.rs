//! The decisions of a live recording: which log records one poll or one
//! mission event produces, what the tracker makes of it, and when recording
//! ends. Fetching samples and writing the log are up to the caller.
use vstd::prelude::*;
use crate::geometry::COORD_LIMIT;
use crate::recording::{
    Coords, FrameClock, SampleOrder, clock_after, coords_of, coords_spec, known_after, order_spec,
    record_of, remove_unchanged, sample_order, should_stop, stamped, stops,
};
use crate::rig::{AirplaneInfo, CarrierInfo};
use crate::track::{Track, TrackView, continues, landed_state, new_track, next_state};
use crate::transform::Transform;

verus! {

/// Log id of the carrier.
pub const CARRIER_ID: u64 = 1;

/// Log id of the plane.
pub const PLANE_ID: u64 = 2;

/// One record of the replay log.
#[derive(Debug, PartialEq)]
pub enum LogRecord {
    ReferenceLatitude(i64),
    ReferenceLongitude(i64),
    /// A frame marker, in hundredths of a second.
    Frame(i64),
    Update { id: u64, coords: Coords, aoa: Option<i64> },
    /// A grading comment from the plane about the carrier.
    Message(String),
    /// The plane landed on the carrier.
    Landed,
}

/// A log record as a mathematical value.
pub enum RecordView {
    ReferenceLatitude(i64),
    ReferenceLongitude(i64),
    Frame(i64),
    Update { id: u64, coords: Coords, aoa: Option<i64> },
    Message(Seq<char>),
    Landed,
}

impl View for LogRecord {
    type V = RecordView;

    open spec fn view(&self) -> RecordView {
        match self {
            LogRecord::ReferenceLatitude(x) => RecordView::ReferenceLatitude(*x),
            LogRecord::ReferenceLongitude(x) => RecordView::ReferenceLongitude(*x),
            LogRecord::Frame(t) => RecordView::Frame(*t),
            LogRecord::Update { id, coords, aoa } => RecordView::Update {
                id: *id,
                coords: *coords,
                aoa: *aoa,
            },
            LogRecord::Message(s) => RecordView::Message(s@),
            LogRecord::Landed => RecordView::Landed,
        }
    }
}

pub open spec fn records_view(v: Seq<LogRecord>) -> Seq<RecordView> {
    v.map_values(|r: LogRecord| r@)
}

/// The state of one live recording.
pub struct Session {
    pub track: Track,
    pub clock: FrameClock,
    pub known_carrier: Option<Coords>,
    pub known_plane: Option<Coords>,
    /// Reference latitude and longitude, from the first carrier sample.
    pub reference: Option<(i64, i64)>,
    /// When the landing was signalled, in the caller's clock.
    pub landed_at: Option<i64>,
}

pub open spec fn frame_marker(last: Option<i64>, t: i64) -> Seq<RecordView> {
    match stamped(last, t) {
        Some(x) => seq![RecordView::Frame(x)],
        None => Seq::empty(),
    }
}

/// The frame markers of `rs` come after `last` and strictly increase.
pub open spec fn frames_increase(rs: Seq<RecordView>, last: Option<i64>) -> bool
    decreases rs.len(),
{
    if rs.len() == 0 {
        true
    } else {
        match rs[0] {
            RecordView::Frame(t) => (last matches Some(l) ==> t > l) && frames_increase(
                rs.drop_first(),
                Some(t),
            ),
            _ => frames_increase(rs.drop_first(), last),
        }
    }
}

/// The time of the last frame marker of `rs`, else `last`.
pub open spec fn clock_through(rs: Seq<RecordView>, last: Option<i64>) -> Option<i64>
    decreases rs.len(),
{
    if rs.len() == 0 {
        last
    } else {
        match rs[0] {
            RecordView::Frame(t) => clock_through(rs.drop_first(), Some(t)),
            _ => clock_through(rs.drop_first(), last),
        }
    }
}

/// Records written one batch after another keep frame markers increasing when
/// each batch does so from where the one before left the clock.
pub proof fn lemma_frames_increase_across(a: Seq<RecordView>, b: Seq<RecordView>, last: Option<i64>)
    ensures
        frames_increase(a + b, last) == (frames_increase(a, last) && frames_increase(
            b,
            clock_through(a, last),
        )),
        clock_through(a + b, last) == clock_through(b, clock_through(a, last)),
    decreases a.len(),
{
    if a.len() == 0 {
        assert(a + b =~= b);
    } else {
        assert((a + b).drop_first() =~= a.drop_first() + b);
        assert((a + b)[0] == a[0]);
        match a[0] {
            RecordView::Frame(t) => lemma_frames_increase_across(a.drop_first(), b, Some(t)),
            _ => lemma_frames_increase_across(a.drop_first(), b, last),
        }
    }
}

proof fn lemma_marker_clock(last: Option<i64>, t: i64)
    ensures
        frames_increase(frame_marker(last, t), last),
        clock_through(frame_marker(last, t), last) == clock_after(last, t),
{
    reveal_with_fuel(frames_increase, 2);
    reveal_with_fuel(clock_through, 2);
    let m = frame_marker(last, t);
    if m.len() > 0 {
        assert(m.drop_first() =~= Seq::<RecordView>::empty());
    }
}

proof fn lemma_no_frame(r: RecordView, last: Option<i64>)
    requires
        !(r is Frame),
    ensures
        frames_increase(seq![r], last),
        clock_through(seq![r], last) == last,
{
    reveal_with_fuel(frames_increase, 2);
    reveal_with_fuel(clock_through, 2);
    assert(seq![r].drop_first() =~= Seq::<RecordView>::empty());
}

/// Frame markers and the clock through two records without frames.
proof fn lemma_two_plain(a: RecordView, b: RecordView, last: Option<i64>)
    requires
        !(a is Frame),
        !(b is Frame),
    ensures
        frames_increase(seq![a, b], last),
        clock_through(seq![a, b], last) == last,
{
    lemma_no_frame(a, last);
    lemma_no_frame(b, last);
    assert(seq![a, b] =~= seq![a] + seq![b]);
    lemma_frames_increase_across(seq![a], seq![b], last);
}

/// Frame markers and the clock through a marker followed by one record without a frame.
proof fn lemma_marked(last: Option<i64>, t: i64, r: RecordView)
    requires
        !(r is Frame),
    ensures
        frames_increase(frame_marker(last, t) + seq![r], last),
        clock_through(frame_marker(last, t) + seq![r], last) == clock_after(last, t),
{
    lemma_marker_clock(last, t);
    lemma_no_frame(r, clock_after(last, t));
    lemma_frames_increase_across(frame_marker(last, t), seq![r], last);
}

impl Session {
    pub open spec fn wf(&self) -> bool {
        &&& self.track.wf()
        &&& self.reference matches Some(r) ==> -COORD_LIMIT <= r.0 <= COORD_LIMIT && -COORD_LIMIT
            <= r.1 <= COORD_LIMIT
    }

    /// The reference latitude and longitude for samples of the carrier `c`.
    pub open spec fn reference_for(&self, c: Transform) -> (i64, i64) {
        match self.reference {
            Some(r) => r,
            None => (c.lat, c.lon),
        }
    }

    /// The update records of the samples, given the reference.
    pub open spec fn carrier_update(&self, c: Transform, r: (i64, i64)) -> RecordView {
        RecordView::Update {
            id: CARRIER_ID,
            coords: record_of(coords_spec(c, r.0, r.1), self.known_carrier),
            aoa: None,
        }
    }

    pub open spec fn plane_update(&self, p: Transform, r: (i64, i64)) -> RecordView {
        RecordView::Update {
            id: PLANE_ID,
            coords: record_of(coords_spec(p, r.0, r.1), self.known_plane),
            aoa: Some(p.aoa),
        }
    }

    /// The reference records, written once, from the first carrier sample.
    pub open spec fn reference_records(&self, c: Transform) -> Seq<RecordView> {
        if self.reference is None {
            seq![RecordView::ReferenceLatitude(c.lat), RecordView::ReferenceLongitude(c.lon)]
        } else {
            Seq::empty()
        }
    }

    /// The records of one poll: the reference when none was written yet, then
    /// both samples, in one frame when their times agree, else the earlier first.
    pub open spec fn tick_records(&self, c: Transform, p: Transform) -> Seq<RecordView> {
        let r = self.reference_for(c);
        let refs = self.reference_records(c);
        let last = self.clock.last;
        let cu = self.carrier_update(c, r);
        let pu = self.plane_update(p, r);
        refs + match order_spec(c.time as int, p.time as int) {
            SampleOrder::Together => frame_marker(last, c.time) + seq![cu, pu],
            SampleOrder::CarrierFirst => frame_marker(last, c.time) + seq![cu] + frame_marker(
                clock_after(last, c.time),
                p.time,
            ) + seq![pu],
            SampleOrder::PlaneFirst => frame_marker(last, p.time) + seq![pu] + frame_marker(
                clock_after(last, p.time),
                c.time,
            ) + seq![cu],
        }
    }

    /// The frame clock after the records of one poll.
    pub open spec fn tick_clock(&self, c: Transform, p: Transform) -> Option<i64> {
        let last = self.clock.last;
        match order_spec(c.time as int, p.time as int) {
            SampleOrder::Together => clock_after(last, c.time),
            SampleOrder::CarrierFirst => clock_after(clock_after(last, c.time), p.time),
            SampleOrder::PlaneFirst => clock_after(clock_after(last, p.time), c.time),
        }
    }

    /// The records of a mission event at `time`: the reference when none was
    /// written yet, a frame, both samples, then the event itself.
    pub open spec fn event_records(&self, time: i64, c: Transform, p: Transform, event: RecordView) -> Seq<RecordView> {
        let r = self.reference_for(c);
        self.reference_records(c) + (frame_marker(self.clock.last, time) + seq![
            self.carrier_update(c, r),
            self.plane_update(p, r),
            event,
        ])
    }

    /// What is remembered of both entities after writing their samples.
    pub open spec fn remembers(&self, n: &Session, c: Transform, p: Transform) -> bool {
        let r = self.reference_for(c);
        &&& n.known_carrier == Some(known_after(coords_spec(c, r.0, r.1), self.known_carrier))
        &&& n.known_plane == Some(known_after(coords_spec(p, r.0, r.1), self.known_plane))
    }

    pub fn new(pilot_name: &str, carrier_info: CarrierInfo, plane_info: AirplaneInfo) -> (r: Session)
        requires
            carrier_info.wf(),
            plane_info.wf(),
        ensures
            r.wf(),
            r.track@ == new_track(pilot_name@, carrier_info, plane_info),
            r.clock.last is None,
            r.known_carrier is None,
            r.known_plane is None,
            r.reference is None,
            r.landed_at is None,
    {
        Session {
            track: Track::new(pilot_name, carrier_info, plane_info),
            clock: FrameClock::new(),
            known_carrier: None,
            known_plane: None,
            reference: None,
            landed_at: None,
        }
    }

    fn reference_exec(&mut self, carrier: &Transform, out: &mut Vec<LogRecord>) -> (r: (i64, i64))
        requires
            old(self).wf(),
            carrier.wf(),
        ensures
            final(self).wf(),
            r == old(self).reference_for(*carrier),
            final(self).reference == Some(r),
            final(self).track@ == old(self).track@,
            final(self).clock == old(self).clock,
            final(self).known_carrier == old(self).known_carrier,
            final(self).known_plane == old(self).known_plane,
            final(self).landed_at == old(self).landed_at,
            records_view(final(out)@) == records_view(old(out)@) + if old(self).reference is None {
                seq![
                    RecordView::ReferenceLatitude(carrier.lat),
                    RecordView::ReferenceLongitude(carrier.lon),
                ]
            } else {
                Seq::<RecordView>::empty()
            },
    {
        match self.reference {
            Some(r) => {
                assert(records_view(out@) =~= records_view(out@) + Seq::<RecordView>::empty());
                r
            },
            None => {
                let ghost before = out@;
                out.push(LogRecord::ReferenceLatitude(carrier.lat));
                out.push(LogRecord::ReferenceLongitude(carrier.lon));
                assert(records_view(out@) =~= records_view(before) + seq![
                    RecordView::ReferenceLatitude(carrier.lat),
                    RecordView::ReferenceLongitude(carrier.lon),
                ]);
                self.reference = Some((carrier.lat, carrier.lon));
                (carrier.lat, carrier.lon)
            },
        }
    }

    fn frame_exec(&mut self, time: i64, out: &mut Vec<LogRecord>)
        ensures
            final(self).clock.last == clock_after(old(self).clock.last, time),
            final(self).track@ == old(self).track@,
            final(self).known_carrier == old(self).known_carrier,
            final(self).known_plane == old(self).known_plane,
            final(self).reference == old(self).reference,
            final(self).landed_at == old(self).landed_at,
            records_view(final(out)@) == records_view(old(out)@) + frame_marker(
                old(self).clock.last,
                time,
            ),
    {
        let ghost before = out@;
        match self.clock.stamp(time) {
            Some(t) => {
                out.push(LogRecord::Frame(t));
                assert(records_view(out@) =~= records_view(before) + seq![RecordView::Frame(t)]);
            },
            None => {
                assert(records_view(out@) =~= records_view(before) + Seq::<RecordView>::empty());
            },
        }
    }

    fn updates_exec(&mut self, carrier: &Transform, plane: &Transform, r: (i64, i64)) -> (u: (
        LogRecord,
        LogRecord,
    ))
        requires
            carrier.wf(),
            plane.wf(),
            -COORD_LIMIT <= r.0 <= COORD_LIMIT,
            -COORD_LIMIT <= r.1 <= COORD_LIMIT,
        ensures
            u.0@ == old(self).carrier_update(*carrier, r),
            u.1@ == old(self).plane_update(*plane, r),
            final(self).known_carrier == Some(
                known_after(coords_spec(*carrier, r.0, r.1), old(self).known_carrier),
            ),
            final(self).known_plane == Some(
                known_after(coords_spec(*plane, r.0, r.1), old(self).known_plane),
            ),
            final(self).track@ == old(self).track@,
            final(self).clock == old(self).clock,
            final(self).reference == old(self).reference,
            final(self).landed_at == old(self).landed_at,
    {
        let cc = remove_unchanged(coords_of(carrier, r.0, r.1), &mut self.known_carrier);
        let pc = remove_unchanged(coords_of(plane, r.0, r.1), &mut self.known_plane);
        (
            LogRecord::Update { id: CARRIER_ID, coords: cc, aoa: None },
            LogRecord::Update { id: PLANE_ID, coords: pc, aoa: Some(plane.aoa) },
        )
    }

    /// One poll of both samples at `now`: returns the records to write and
    /// whether recording ends.
    pub fn on_tick(&mut self, carrier: &Transform, plane: &Transform, now: i64) -> (r: (
        Vec<LogRecord>,
        bool,
    ))
        requires
            old(self).wf(),
            carrier.wf(),
            plane.wf(),
        ensures
            final(self).wf(),
            records_view(r.0@) == old(self).tick_records(*carrier, *plane),
            frames_increase(records_view(r.0@), old(self).clock.last),
            r.1 == stops(continues(old(self).track@, *carrier, *plane), old(self).landed_at, now as int),
            final(self).track@ == next_state(old(self).track@, *carrier, *plane),
            final(self).clock.last == old(self).tick_clock(*carrier, *plane),
            final(self).reference == Some(old(self).reference_for(*carrier)),
            old(self).remembers(final(self), *carrier, *plane),
            final(self).landed_at == old(self).landed_at,
    {
        let ghost s0 = *old(self);
        let mut out: Vec<LogRecord> = Vec::new();
        let r = self.reference_exec(carrier, &mut out);
        let ghost refs = records_view(out@);
        let ghost last = self.clock.last;
        let (cu, pu) = self.updates_exec(carrier, plane, r);
        let ghost cuv = cu@;
        let ghost puv = pu@;
        match sample_order(carrier.time, plane.time) {
            SampleOrder::Together => {
                self.frame_exec(carrier.time, &mut out);
                let ghost a = records_view(out@);
                out.push(cu);
                assert(records_view(out@) =~= a + seq![cuv]);
                let ghost b = records_view(out@);
                out.push(pu);
                assert(records_view(out@) =~= b + seq![puv]);
                assert(records_view(out@) =~= refs + (frame_marker(last, carrier.time) + seq![
                    cuv,
                    puv,
                ]));
            },
            SampleOrder::CarrierFirst => {
                self.frame_exec(carrier.time, &mut out);
                let ghost a = records_view(out@);
                out.push(cu);
                assert(records_view(out@) =~= a + seq![cuv]);
                self.frame_exec(plane.time, &mut out);
                let ghost b = records_view(out@);
                out.push(pu);
                assert(records_view(out@) =~= b + seq![puv]);
                assert(records_view(out@) =~= refs + (frame_marker(last, carrier.time) + seq![cuv]
                    + frame_marker(clock_after(last, carrier.time), plane.time) + seq![puv]));
            },
            SampleOrder::PlaneFirst => {
                self.frame_exec(plane.time, &mut out);
                let ghost a = records_view(out@);
                out.push(pu);
                assert(records_view(out@) =~= a + seq![puv]);
                self.frame_exec(carrier.time, &mut out);
                let ghost b = records_view(out@);
                out.push(cu);
                assert(records_view(out@) =~= b + seq![cuv]);
                assert(records_view(out@) =~= refs + (frame_marker(last, plane.time) + seq![puv]
                    + frame_marker(clock_after(last, plane.time), carrier.time) + seq![cuv]));
            },
        }
        proof {
            lemma_tick_frames_increase(&s0, *carrier, *plane);
        }
        let goes_on = self.track.next(carrier, plane);
        let stop = should_stop(goes_on, self.landed_at, now);
        (out, stop)
    }

    /// A landing quality mark at `time` with the grading `comment`.
    pub fn on_quality_mark(&mut self, time: i64, carrier: &Transform, plane: &Transform, comment: String) -> (r: Vec<LogRecord>)
        requires
            old(self).wf(),
            carrier.wf(),
            plane.wf(),
        ensures
            final(self).wf(),
            records_view(r@) == old(self).event_records(time, *carrier, *plane, RecordView::Message(comment@)),
            frames_increase(records_view(r@), old(self).clock.last),
            final(self).track@ == (TrackView { dcs_grading: Some(comment@), ..old(self).track@ }),
            final(self).clock.last == clock_after(old(self).clock.last, time),
            final(self).reference == Some(old(self).reference_for(*carrier)),
            old(self).remembers(final(self), *carrier, *plane),
            final(self).landed_at == old(self).landed_at,
    {
        let ghost s0 = *old(self);
        let mut out: Vec<LogRecord> = Vec::new();
        let r = self.reference_exec(carrier, &mut out);
        let ghost refs = records_view(out@);
        self.frame_exec(time, &mut out);
        let ghost fr = records_view(out@);
        let (cu, pu) = self.updates_exec(carrier, plane, r);
        let ghost cuv = cu@;
        let ghost puv = pu@;
        out.push(cu);
        out.push(pu);
        self.track.set_dcs_grading(comment.clone());
        out.push(LogRecord::Message(comment));
        assert(records_view(out@) =~= fr + seq![cuv, puv, RecordView::Message(comment@)]);
        assert(fr =~= refs + frame_marker(s0.clock.last, time));
        assert(records_view(out@) =~= refs + (frame_marker(s0.clock.last, time) + seq![
            cuv,
            puv,
            RecordView::Message(comment@),
        ]));
        proof {
            lemma_event_frames_increase(&s0, time, *carrier, *plane, RecordView::Message(comment@));
        }
        out
    }

    /// A landing at `time`, signalled at `now`: the tracker takes the samples
    /// and estimates the wire, and the grace period starts.
    pub fn on_land(&mut self, time: i64, carrier: &Transform, plane: &Transform, now: i64) -> (r: Vec<LogRecord>)
        requires
            old(self).wf(),
            carrier.wf(),
            plane.wf(),
        ensures
            final(self).wf(),
            records_view(r@) == old(self).event_records(time, *carrier, *plane, RecordView::Landed),
            frames_increase(records_view(r@), old(self).clock.last),
            final(self).track@ == landed_state(next_state(old(self).track@, *carrier, *plane), *carrier, *plane),
            final(self).clock.last == clock_after(old(self).clock.last, time),
            final(self).reference == Some(old(self).reference_for(*carrier)),
            old(self).remembers(final(self), *carrier, *plane),
            final(self).landed_at == Some(now),
    {
        let ghost s0 = *old(self);
        let mut out: Vec<LogRecord> = Vec::new();
        let r = self.reference_exec(carrier, &mut out);
        let ghost refs = records_view(out@);
        self.frame_exec(time, &mut out);
        let ghost fr = records_view(out@);
        let (cu, pu) = self.updates_exec(carrier, plane, r);
        let ghost cuv = cu@;
        let ghost puv = pu@;
        out.push(cu);
        out.push(pu);
        out.push(LogRecord::Landed);
        assert(records_view(out@) =~= fr + seq![cuv, puv, RecordView::Landed]);
        assert(fr =~= refs + frame_marker(s0.clock.last, time));
        assert(records_view(out@) =~= refs + (frame_marker(s0.clock.last, time) + seq![
            cuv,
            puv,
            RecordView::Landed,
        ]));
        proof {
            lemma_event_frames_increase(&s0, time, *carrier, *plane, RecordView::Landed);
        }
        self.track.next(carrier, plane);
        self.track.landed(carrier, plane);
        self.landed_at = Some(now);
        out
    }
}

/// The frame markers of one poll come after every earlier frame and strictly
/// increase, and leave the clock at the last of them.
pub proof fn lemma_tick_frames_increase(s: &Session, c: Transform, p: Transform)
    ensures
        frames_increase(s.tick_records(c, p), s.clock.last),
        clock_through(s.tick_records(c, p), s.clock.last) == s.tick_clock(c, p),
{
    let last = s.clock.last;
    let r = s.reference_for(c);
    let cu = s.carrier_update(c, r);
    let pu = s.plane_update(p, r);
    let refs = s.reference_records(c);
    if s.reference is None {
        lemma_two_plain(
            RecordView::ReferenceLatitude(c.lat),
            RecordView::ReferenceLongitude(c.lon),
            last,
        );
    }
    let rest = match order_spec(c.time as int, p.time as int) {
        SampleOrder::Together => frame_marker(last, c.time) + seq![cu, pu],
        SampleOrder::CarrierFirst => frame_marker(last, c.time) + seq![cu] + frame_marker(
            clock_after(last, c.time),
            p.time,
        ) + seq![pu],
        SampleOrder::PlaneFirst => frame_marker(last, p.time) + seq![pu] + frame_marker(
            clock_after(last, p.time),
            c.time,
        ) + seq![cu],
    };
    match order_spec(c.time as int, p.time as int) {
        SampleOrder::Together => {
            lemma_marker_clock(last, c.time);
            lemma_two_plain(cu, pu, clock_after(last, c.time));
            lemma_frames_increase_across(frame_marker(last, c.time), seq![cu, pu], last);
        },
        SampleOrder::CarrierFirst => {
            let l1 = clock_after(last, c.time);
            lemma_marked(last, c.time, cu);
            lemma_marked(l1, p.time, pu);
            assert(rest =~= (frame_marker(last, c.time) + seq![cu]) + (frame_marker(l1, p.time)
                + seq![pu]));
            lemma_frames_increase_across(
                frame_marker(last, c.time) + seq![cu],
                frame_marker(l1, p.time) + seq![pu],
                last,
            );
        },
        SampleOrder::PlaneFirst => {
            let l1 = clock_after(last, p.time);
            lemma_marked(last, p.time, pu);
            lemma_marked(l1, c.time, cu);
            assert(rest =~= (frame_marker(last, p.time) + seq![pu]) + (frame_marker(l1, c.time)
                + seq![cu]));
            lemma_frames_increase_across(
                frame_marker(last, p.time) + seq![pu],
                frame_marker(l1, c.time) + seq![cu],
                last,
            );
        },
    }
    if s.reference is None {
        assert(clock_through(refs, last) == last);
    } else {
        assert(refs + rest =~= rest);
    }
    lemma_frames_increase_across(refs, rest, last);
    assert(s.tick_records(c, p) == refs + rest);
}

/// The frame marker of a mission event comes after every earlier frame, and
/// leaves the clock where the event's time puts it.
pub proof fn lemma_event_frames_increase(
    s: &Session,
    time: i64,
    c: Transform,
    p: Transform,
    event: RecordView,
)
    requires
        !(event is Frame),
    ensures
        frames_increase(s.event_records(time, c, p, event), s.clock.last),
        clock_through(s.event_records(time, c, p, event), s.clock.last) == clock_after(
            s.clock.last,
            time,
        ),
{
    let last = s.clock.last;
    let r = s.reference_for(c);
    let cu = s.carrier_update(c, r);
    let pu = s.plane_update(p, r);
    let l1 = clock_after(last, time);
    lemma_marker_clock(last, time);
    lemma_two_plain(cu, pu, l1);
    lemma_no_frame(event, l1);
    lemma_frames_increase_across(seq![cu, pu], seq![event], l1);
    assert(seq![cu, pu] + seq![event] =~= seq![cu, pu, event]);
    lemma_frames_increase_across(frame_marker(last, time), seq![cu, pu, event], last);
    let refs = s.reference_records(c);
    if s.reference is None {
        lemma_two_plain(
            RecordView::ReferenceLatitude(c.lat),
            RecordView::ReferenceLongitude(c.lon),
            last,
        );
    } else {
        assert(refs + (frame_marker(last, time) + seq![cu, pu, event]) =~= frame_marker(last, time)
            + seq![cu, pu, event]);
    }
    lemma_frames_increase_across(refs, frame_marker(last, time) + seq![cu, pu, event], last);
}

} // verus!
