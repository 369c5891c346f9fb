//! The scanner: a forward-only, single-pass, filtering generator that
//! turns a byte stream into a sequence of records.
//!
//! The filters are fixed at construction: an optional allow-list, an
//! optional deny-list (configuring both at once is rejected as a
//! conflict), an optional stop identifier, and an optional cap on how
//! many records are examined. A record whose identifier matches the stop
//! identifier is not itself yielded: scanning stops just before it.
//! Rejected records are consumed from the stream — their payload included
//! — so that framing stays intact, but they produce no item. Yielded
//! records keep exact stream order; an error ends the scan as its final
//! item.

use crate::biff_record::{
    lemma_parse_record_bounds, parse_record_at, BiffError, BiffRecord, RecParse,
};
use crate::reader::ByteReader;
use vstd::prelude::*;

verus! {

/// The scanner, mathematically: the stream, the cursor, the filters and
/// the progress counters.
pub struct ScannerView {
    pub buf: Seq<u8>,
    pub pos: int,
    pub ids_only: Option<Seq<u16>>,
    pub ids_skip: Option<Seq<u16>>,
    pub break_id: Option<u16>,
    pub max_scan: Option<nat>,
    pub scan_cnt: nat,
    pub done: bool,
}

/// The identifier lists a scanner was configured with, as sequences.
pub open spec fn view_opt_ids(o: Option<Vec<u16>>) -> Option<Seq<u16>> {
    match o {
        Some(v) => Some(v@),
        None => None,
    }
}

/// Whether the configured filters accept a record with identifier `id`.
pub open spec fn accepts(v: ScannerView, id: u16) -> bool {
    match v.ids_only {
        Some(only) => only.contains(id),
        None => match v.ids_skip {
            Some(skip) => !skip.contains(id),
            None => true,
        },
    }
}

/// What one pull of the scanner leaves behind and yields.
pub struct StepOutcome {
    pub state: ScannerView,
    pub item: Option<Result<(u16, Seq<u8>), BiffError>>,
}

/// One pull of the scanner: stop at the examined-records cap, at clean
/// end of stream, just before a record carrying the stop identifier, or
/// — surfacing the error as the final item — at a record that cannot be
/// read; skip over rejected records; yield the first accepted one.
pub open spec fn spec_step(v: ScannerView) -> StepOutcome
    decreases v.buf.len() - v.pos,
    when 0 <= v.pos <= v.buf.len()
    via spec_step_decreases
{
    if v.done {
        StepOutcome { state: v, item: None }
    } else if v.max_scan matches Some(m) && v.scan_cnt >= m {
        StepOutcome { state: ScannerView { done: true, ..v }, item: None }
    } else {
        match parse_record_at(v.buf, v.pos) {
            RecParse::Eof => StepOutcome { state: ScannerView { done: true, ..v }, item: None },
            RecParse::Fail(e) => StepOutcome {
                state: ScannerView { done: true, ..v },
                item: Some(Err(e)),
            },
            RecParse::Rec { id, data, n } => {
                let v2 = ScannerView { pos: v.pos + n, scan_cnt: v.scan_cnt + 1, ..v };
                if v.break_id == Some(id) {
                    StepOutcome { state: ScannerView { done: true, ..v2 }, item: None }
                } else if accepts(v, id) {
                    StepOutcome { state: v2, item: Some(Ok((id, data))) }
                } else {
                    spec_step(v2)
                }
            },
        }
    }
}

#[via_fn]
proof fn spec_step_decreases(v: ScannerView) {
    lemma_parse_record_bounds(v.buf, v.pos);
}

/// Shape facts about one pull: the stream and the filters are untouched,
/// the cursor only moves forward and stays inside the stream, a yielded
/// record moved it strictly forward, and a pull that yields nothing or an
/// error has finished the scanner.
pub proof fn lemma_spec_step(v: ScannerView)
    requires
        0 <= v.pos <= v.buf.len(),
    ensures
        spec_step(v).state.buf == v.buf,
        spec_step(v).state.ids_only == v.ids_only,
        spec_step(v).state.ids_skip == v.ids_skip,
        spec_step(v).state.break_id == v.break_id,
        spec_step(v).state.max_scan == v.max_scan,
        v.pos <= spec_step(v).state.pos <= v.buf.len(),
        v.scan_cnt <= spec_step(v).state.scan_cnt,
        2 * spec_step(v).state.scan_cnt <= 2 * v.scan_cnt + (spec_step(v).state.pos - v.pos),
        spec_step(v).item matches Some(Ok(_)) ==> v.pos < spec_step(v).state.pos,
        spec_step(v).item matches Some(Ok((id, data))) ==> accepts(v, id),
        spec_step(v).item matches Some(Err(_)) ==> spec_step(v).state.done,
        spec_step(v).item is None ==> spec_step(v).state.done,
    decreases v.buf.len() - v.pos,
{
    lemma_parse_record_bounds(v.buf, v.pos);
    if !v.done && !(v.max_scan matches Some(m) && v.scan_cnt >= m) {
        if let RecParse::Rec { id, data, n } = parse_record_at(v.buf, v.pos) {
            let v2 = ScannerView { pos: v.pos + n, scan_cnt: v.scan_cnt + 1, ..v };
            if v.break_id != Some(id) && !accepts(v, id) {
                lemma_spec_step(v2);
            }
        }
    }
}

/// Everything a scan yields, in stream order.
pub open spec fn spec_scan(v: ScannerView) -> Seq<Result<(u16, Seq<u8>), BiffError>>
    decreases v.buf.len() - v.pos, (if v.done {
        0int
    } else {
        1
    }),
    when 0 <= v.pos <= v.buf.len()
    via spec_scan_decreases
{
    let step = spec_step(v);
    match step.item {
        None => Seq::empty(),
        Some(item) => seq![item] + spec_scan(step.state),
    }
}

#[via_fn]
proof fn spec_scan_decreases(v: ScannerView) {
    lemma_spec_step(v);
}

/// Every record of a stream from position `i` on, in stream order,
/// ending with the error where one cannot be read.
pub open spec fn spec_records(s: Seq<u8>, i: int) -> Seq<Result<(u16, Seq<u8>), BiffError>>
    decreases s.len() - i,
    when 0 <= i <= s.len()
    via spec_records_decreases
{
    match parse_record_at(s, i) {
        RecParse::Eof => Seq::empty(),
        RecParse::Fail(e) => seq![Err(e)],
        RecParse::Rec { id, data, n } => seq![Ok((id, data))] + spec_records(s, i + n),
    }
}

#[via_fn]
proof fn spec_records_decreases(s: Seq<u8>, i: int) {
    lemma_parse_record_bounds(s, i);
}

/// A scan without filters, stop identifier or cap yields every record of
/// the stream, in stream order.
pub proof fn lemma_scan_unfiltered(v: ScannerView)
    requires
        0 <= v.pos <= v.buf.len(),
        !v.done,
        v.ids_only is None,
        v.ids_skip is None,
        v.break_id is None,
        v.max_scan is None,
    ensures
        spec_scan(v) == spec_records(v.buf, v.pos),
    decreases v.buf.len() - v.pos,
{
    lemma_parse_record_bounds(v.buf, v.pos);
    match parse_record_at(v.buf, v.pos) {
        RecParse::Eof => {
            assert(spec_scan(v) =~= spec_records(v.buf, v.pos));
        },
        RecParse::Fail(e) => {
            lemma_spec_scan_done(spec_step(v).state);
            assert(spec_scan(v) =~= spec_records(v.buf, v.pos));
        },
        RecParse::Rec { id, data, n } => {
            let v2 = ScannerView { pos: v.pos + n, scan_cnt: v.scan_cnt + 1, ..v };
            lemma_scan_unfiltered(v2);
            assert(spec_scan(v) =~= spec_records(v.buf, v.pos));
        },
    }
}

/// How a yielded record corresponds to its mathematical counterpart.
pub open spec fn item_match(
    x: Result<BiffRecord, BiffError>,
    y: Result<(u16, Seq<u8>), BiffError>,
) -> bool {
    match (x, y) {
        (Ok(rec), Ok((id, data))) => rec@.id == id && rec@.data == data,
        (Err(e1), Err(e2)) => e1 == e2,
        _ => false,
    }
}

/// Pointwise correspondence of a whole scan's output.
pub open spec fn results_match(
    xs: Seq<Result<BiffRecord, BiffError>>,
    ys: Seq<Result<(u16, Seq<u8>), BiffError>>,
) -> bool {
    xs.len() == ys.len() && (forall|j: int|
        0 <= j < xs.len() ==> #[trigger] item_match(xs[j], ys[j]))
}

/// Whether `v` holds `id`.
fn contains_id(v: &Vec<u16>, id: u16) -> (b: bool)
    ensures
        b == v@.contains(id),
{
    let mut i: usize = 0;
    while i < v.len()
        invariant
            i <= v@.len(),
            forall|j: int| 0 <= j < i ==> v@[j] != id,
        decreases v@.len() - i,
    {
        if v[i] == id {
            return true;
        }
        i = i + 1;
    }
    false
}

/// Single-threaded filtering scanner over a byte stream. It owns the
/// stream for its whole lifetime: nothing else may read it meanwhile, or
/// framing would desynchronize.
pub struct BiffScanner {
    reader: ByteReader,
    ids_only: Option<Vec<u16>>,
    ids_skip: Option<Vec<u16>>,
    break_id: Option<u16>,
    max_scan: Option<usize>,
    scan_cnt: usize,
    done: bool,
}

impl View for BiffScanner {
    type V = ScannerView;

    closed spec fn view(&self) -> ScannerView {
        ScannerView {
            buf: self.reader.spec_buf(),
            pos: self.reader.spec_pos(),
            ids_only: view_opt_ids(self.ids_only),
            ids_skip: view_opt_ids(self.ids_skip),
            break_id: self.break_id,
            max_scan: match self.max_scan {
                Some(m) => Some(m as nat),
                None => None,
            },
            scan_cnt: self.scan_cnt as nat,
            done: self.done,
        }
    }
}

impl BiffScanner {
    /// The bookkeeping every scanner keeps: the cursor is inside the
    /// stream, and each examined record moved it by at least two bytes.
    pub closed spec fn wf(&self) -> bool {
        &&& 0 <= self@.pos <= self@.buf.len()
        &&& 2 * self@.scan_cnt <= self@.pos
    }

    /// Configure a scanner. An allow-list and a deny-list at the same
    /// time contradict each other, so the combination is rejected.
    pub fn new(
        reader: ByteReader,
        ids_only: Option<Vec<u16>>,
        ids_skip: Option<Vec<u16>>,
        break_id: Option<u16>,
        max_scan: Option<usize>,
    ) -> (res: Result<BiffScanner, BiffError>)
        ensures
            match res {
                Ok(sc) => {
                    &&& !(ids_only is Some && ids_skip is Some)
                    &&& sc.wf()
                    &&& sc@ == (ScannerView {
                        buf: reader.spec_buf(),
                        pos: reader.spec_pos(),
                        ids_only: view_opt_ids(ids_only),
                        ids_skip: view_opt_ids(ids_skip),
                        break_id,
                        max_scan: match max_scan {
                            Some(m) => Some(m as nat),
                            None => None,
                        },
                        scan_cnt: 0,
                        done: false,
                    })
                },
                Err(e) => e == BiffError::FilterConflict && ids_only is Some && ids_skip is Some,
            },
    {
        if ids_only.is_some() && ids_skip.is_some() {
            return Err(BiffError::FilterConflict);
        }
        proof {
            use_type_invariant(&reader);
        }
        Ok(
            BiffScanner {
                reader,
                ids_only,
                ids_skip,
                break_id,
                max_scan,
                scan_cnt: 0,
                done: false,
            },
        )
    }

    /// Whether the filters accept a record with identifier `id`.
    fn accepts_id(&self, id: u16) -> (b: bool)
        ensures
            b == accepts(self@, id),
    {
        match &self.ids_only {
            Some(only) => contains_id(only, id),
            None => match &self.ids_skip {
                Some(skip) => !contains_id(skip, id),
                None => true,
            },
        }
    }

    /// Read the next record header from the underlying stream: the record
    /// identifier and the payload size, leaving the cursor at the start
    /// of the payload. A failed header read is fatal to the scan, so it
    /// only promises not to rewind.
    pub fn read_header(&mut self) -> (res: Result<(u16, u32), BiffError>)
        requires
            old(self).wf(),
        ensures
            final(self).wf(),
            final(self)@ == (ScannerView {
                pos: final(self)@.pos,
                ..old(self)@
            }),
            final(self)@.pos >= old(self)@.pos,
            match res {
                Ok((id, sz)) => crate::biff_id::parse_id_at(old(self)@.buf, old(self)@.pos)
                    matches crate::ParseOutcome::Parsed { v: vid, n: n1 }
                    && vid == id
                    && (crate::biff_size::parse_size_at(old(self)@.buf, old(self)@.pos + n1)
                        matches crate::ParseOutcome::Parsed { v: vsz, n: n2 }
                        && vsz == sz
                        && final(self)@.pos == old(self)@.pos + n1 + n2),
                Err(e) => {
                    ||| {
                        &&& crate::biff_id::parse_id_at(old(self)@.buf, old(self)@.pos)
                            is Truncated
                        &&& e == BiffError::Truncated
                    }
                    ||| {
                        &&& crate::biff_id::parse_id_at(old(self)@.buf, old(self)@.pos)
                            is Malformed
                        &&& e == BiffError::Malformed
                    }
                    ||| (crate::biff_id::parse_id_at(old(self)@.buf, old(self)@.pos)
                        matches crate::ParseOutcome::Parsed { v: vid, n: n1 } && ((
                    crate::biff_size::parse_size_at(old(self)@.buf, old(self)@.pos + n1)
                        is Truncated && e == BiffError::Truncated) || (
                    crate::biff_size::parse_size_at(old(self)@.buf, old(self)@.pos + n1)
                        is Malformed && e == BiffError::Malformed)))
                },
            },
    {
        let ghost s = self.reader.spec_buf();
        let ghost p0 = self.reader.spec_pos();
        proof {
            use_type_invariant(&self.reader);
        }
        let b0 = match self.reader.read_byte() {
            Some(b) => b,
            None => {
                return Err(BiffError::Truncated);
            },
        };
        let id: u16;
        if b0 < 0x80 {
            id = b0 as u16;
        } else {
            let b1 = match self.reader.read_byte() {
                Some(b) => b,
                None => {
                    return Err(BiffError::Truncated);
                },
            };
            if b1 >= 0x80 {
                return Err(BiffError::Malformed);
            }
            id = (b0 - 0x80) as u16 + 0x80 * (b1 as u16);
        }
        let ghost n1 = (self.reader.spec_pos() - p0) as nat;
        proof {
            assert(crate::biff_id::parse_id_at(s, p0) == (crate::ParseOutcome::Parsed {
                v: id,
                n: n1,
            }));
        }
        let sz = match BiffRecord::read_size(&mut self.reader) {
            Ok(sz) => sz,
            Err(e) => {
                return Err(e);
            },
        };
        Ok((id, sz))
    }

    /// Pull the next accepted record: `None` when the scan is over,
    /// `Some(Err(..))` as the final item when a record cannot be read.
    /// After an error the scanner is finished, and only then may the
    /// cursor sit past the point the step describes: nothing reads it
    /// again.
    pub fn next(&mut self) -> (res: Option<Result<BiffRecord, BiffError>>)
        requires
            old(self).wf(),
        ensures
            final(self).wf(),
            final(self)@ == (ScannerView {
                pos: final(self)@.pos,
                ..spec_step(old(self)@).state
            }),
            final(self)@.done ==> spec_step(old(self)@).state.done,
            !final(self)@.done ==> final(self)@.pos == spec_step(old(self)@).state.pos,
            final(self)@.pos >= old(self)@.pos,
            match (res, spec_step(old(self)@).item) {
                (None, None) => true,
                (Some(Ok(rec)), Some(Ok((id, data)))) => rec@.id == id && rec@.data == data,
                (Some(Err(e1)), Some(Err(e2))) => e1 == e2,
                _ => false,
            },
    {
        let ghost v0 = self@;
        if self.done {
            return None;
        }
        loop
            invariant
                v0 == old(self)@,
                old(self).wf(),
                self.wf(),
                self@.pos >= v0.pos,
                !self@.done,
                self@ == (ScannerView { pos: self@.pos, scan_cnt: self@.scan_cnt, ..v0 }),
                spec_step(v0) == spec_step(self@),
            decreases self@.buf.len() - self@.pos,
        {
            let ghost v = self@;
            proof {
                use_type_invariant(&self.reader);
                lemma_parse_record_bounds(v.buf, v.pos);
            }
            if let Some(m) = self.max_scan {
                if self.scan_cnt >= m {
                    self.done = true;
                    return None;
                }
            }
            match BiffRecord::read(&mut self.reader) {
                Ok(None) => {
                    self.done = true;
                    return None;
                },
                Err(e) => {
                    self.done = true;
                    return Some(Err(e));
                },
                Ok(Some(rec)) => {
                    self.scan_cnt = self.scan_cnt + 1;
                    let id = rec.id();
                    let brk = match self.break_id {
                        Some(b) => b == id,
                        None => false,
                    };
                    if brk {
                        self.done = true;
                        return None;
                    }
                    if self.accepts_id(id) {
                        return Some(Ok(rec));
                    }
                },
            }
        }
    }
}

/// A finished scanner yields nothing more.
pub proof fn lemma_spec_scan_done(v: ScannerView)
    requires
        0 <= v.pos <= v.buf.len(),
        v.done,
    ensures
        spec_scan(v) == Seq::<Result<(u16, Seq<u8>), BiffError>>::empty(),
{
}

/// Filtering: every record a scan yields passes the configured filters —
/// with an allow-list, exactly the listed identifiers come out; with a
/// deny-list, none of the listed ones do.
pub proof fn lemma_scan_filter(v: ScannerView)
    requires
        0 <= v.pos <= v.buf.len(),
    ensures
        forall|j: int|
            0 <= j < spec_scan(v).len() ==> ((#[trigger] spec_scan(v)[j]) matches Ok(
                (id, data),
            ) ==> accepts(v, id)),
    decreases v.buf.len() - v.pos, (if v.done {
        0int
    } else {
        1
    }),
{
    lemma_spec_step(v);
    let step = spec_step(v);
    if let Some(item) = step.item {
        lemma_scan_filter(step.state);
        assert forall|j: int|
            0 <= j < spec_scan(v).len() implies ((#[trigger] spec_scan(v)[j]) matches Ok(
            (id, data),
        ) ==> accepts(v, id)) by {
            if j == 0 {
                assert(spec_scan(v)[0] == item);
            } else {
                assert(spec_scan(v)[j] == spec_scan(step.state)[j - 1]);
                assert(step.state.ids_only == v.ids_only && step.state.ids_skip == v.ids_skip);
            }
        }
    }
}

impl BiffRecord {
    /// Scan a whole stream: run a scanner built from the given filters to
    /// exhaustion and collect everything it yields, in stream order. An
    /// allow-list and a deny-list together are rejected as a conflict.
    pub fn scan(
        reader: ByteReader,
        ids_only: Option<Vec<u16>>,
        ids_skip: Option<Vec<u16>>,
        break_id: Option<u16>,
        max_scan: Option<usize>,
    ) -> (res: Result<Vec<Result<BiffRecord, BiffError>>, BiffError>)
        ensures
            match res {
                Ok(items) => !(ids_only is Some && ids_skip is Some) && results_match(
                    items@,
                    spec_scan(
                        (ScannerView {
                            buf: reader.spec_buf(),
                            pos: reader.spec_pos(),
                            ids_only: view_opt_ids(ids_only),
                            ids_skip: view_opt_ids(ids_skip),
                            break_id,
                            max_scan: match max_scan {
                                Some(m) => Some(m as nat),
                                None => None,
                            },
                            scan_cnt: 0,
                            done: false,
                        }),
                    ),
                ),
                Err(e) => e == BiffError::FilterConflict && ids_only is Some && ids_skip is Some,
            },
    {
        let mut sc = match BiffScanner::new(reader, ids_only, ids_skip, break_id, max_scan) {
            Ok(sc) => sc,
            Err(e) => {
                return Err(e);
            },
        };
        let ghost v0 = sc@;
        let mut items: Vec<Result<BiffRecord, BiffError>> = Vec::new();
        proof {
            assert(spec_scan(v0).skip(0) =~= spec_scan(v0));
        }
        loop
            invariant
                sc.wf(),
                !(ids_only is Some && ids_skip is Some),
                v0 == (ScannerView {
                    buf: reader.spec_buf(),
                    pos: reader.spec_pos(),
                    ids_only: view_opt_ids(ids_only),
                    ids_skip: view_opt_ids(ids_skip),
                    break_id,
                    max_scan: match max_scan {
                        Some(m) => Some(m as nat),
                        None => None,
                    },
                    scan_cnt: 0,
                    done: false,
                }),
                items@.len() <= spec_scan(v0).len(),
                spec_scan(v0).len() == items@.len() + spec_scan(sc@).len(),
                spec_scan(v0).skip(items@.len() as int) == spec_scan(sc@),
                results_match(items@, spec_scan(v0).take(items@.len() as int)),
                0 <= v0.pos <= v0.buf.len(),
            decreases sc@.buf.len() - sc@.pos + (if sc@.done {
                0int
            } else {
                1
            }),
        {
            let ghost vpre = sc@;
            proof {
                lemma_spec_step(vpre);
            }
            match sc.next() {
                None => {
                    proof {
                        assert(spec_scan(vpre) =~= Seq::<
                            Result<(u16, Seq<u8>), BiffError>,
                        >::empty());
                        assert(spec_scan(v0).take(items@.len() as int) =~= spec_scan(v0));
                    }
                    return Ok(items);
                },
                Some(item) => {
                    let ghost step = spec_step(vpre);
                    let ghost spec_item = step.item.unwrap();
                    proof {
                        if sc@.done {
                            lemma_spec_scan_done(sc@);
                            lemma_spec_scan_done(step.state);
                        }
                        assert(spec_scan(sc@) == spec_scan(step.state));
                        assert(spec_scan(vpre) == seq![spec_item] + spec_scan(step.state));
                    }
                    let ghost olditems = items@;
                    items.push(item);
                    proof {
                        assert(spec_scan(v0).skip(items@.len() as int) =~= spec_scan(
                            vpre,
                        ).skip(1));
                        assert(spec_scan(vpre).skip(1) =~= spec_scan(step.state));
                        assert(spec_scan(v0)[olditems.len() as int] == spec_scan(vpre)[0]);
                        assert(spec_scan(vpre)[0] == spec_item);
                        let t = spec_scan(v0).take(items@.len() as int);
                        assert forall|j: int| 0 <= j < items@.len() implies #[trigger] item_match(
                            items@[j],
                            t[j],
                        ) by {
                            if j < olditems.len() {
                                assert(item_match(
                                    olditems[j],
                                    spec_scan(v0).take(olditems.len() as int)[j],
                                ));
                                assert(t[j] == spec_scan(v0).take(olditems.len() as int)[j]);
                            } else {
                                assert(t[j] == spec_scan(v0)[olditems.len() as int]);
                            }
                        }
                    }
                },
            }
        }
    }
}

} // verus!
