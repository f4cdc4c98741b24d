//! Where control bytes go.
use vstd::prelude::*;

use crate::error::{Error, Result};

verus! {

/// A call that a transport was given, with the error it returned, if any.
#[verifier::ext_equal]
pub enum TransportCall {
    Write { data: Seq<u8>, fault: Option<Error> },
    Flush { fault: Option<Error> },
}

/// The error in a call's result.
pub open spec fn fault_of(r: Result<()>) -> Option<Error> {
    match r {
        Ok(_) => None,
        Err(e) => Some(e),
    }
}

/// A write that succeeded.
pub open spec fn wrote(data: Seq<u8>) -> TransportCall {
    TransportCall::Write { data, fault: None }
}

/// A flush that succeeded.
pub open spec fn pushed_out() -> TransportCall {
    TransportCall::Flush { fault: None }
}

/// How many of the calls are writes.
pub open spec fn write_count(calls: Seq<TransportCall>) -> nat
    decreases calls.len(),
{
    if calls.len() == 0 {
        0
    } else {
        write_count(calls.drop_last()) + if calls.last() is Write {
            1nat
        } else {
            0nat
        }
    }
}

/// The data of all writes among the calls, in order.
pub open spec fn written_data(calls: Seq<TransportCall>) -> Seq<u8>
    decreases calls.len(),
{
    if calls.len() == 0 {
        Seq::empty()
    } else {
        match calls.last() {
            TransportCall::Write { data, .. } => written_data(calls.drop_last()) + data,
            TransportCall::Flush { .. } => written_data(calls.drop_last()),
        }
    }
}

/// What a write followed by a flush adds to the calls.
pub(crate) proof fn lemma_write_and_flush(calls: Seq<TransportCall>, data: Seq<u8>)
    ensures
        write_count(calls.push(wrote(data)).push(pushed_out())) == write_count(calls) + 1,
        written_data(calls.push(wrote(data)).push(pushed_out())) == written_data(calls) + data,
{
    let one = calls.push(wrote(data));
    assert(one.drop_last() =~= calls);
    assert(write_count(one) == write_count(calls) + 1);
    assert(written_data(one) == written_data(calls) + data);
    assert(one.push(pushed_out()).drop_last() =~= one);
}

/// What calls behind other calls add to them.
pub(crate) proof fn lemma_more_calls(calls: Seq<TransportCall>, more: Seq<TransportCall>)
    ensures
        write_count(calls + more) == write_count(calls) + write_count(more),
        written_data(calls + more) == written_data(calls) + written_data(more),
    decreases more.len(),
{
    if more.len() == 0 {
        assert(calls + more =~= calls);
        assert(written_data(calls) + written_data(more) =~= written_data(calls));
    } else {
        lemma_more_calls(calls, more.drop_last());
        assert((calls + more).drop_last() =~= calls + more.drop_last());
        assert(written_data(calls + more) =~= written_data(calls) + written_data(more));
    }
}

/// A byte sink for control messages.
///
/// A failed call says nothing about how much of its data reached the wire.
pub trait TransportWrite: Sized {
    /// The bytes accepted so far.
    spec fn wire(&self) -> Seq<u8>;

    /// The calls made so far, oldest first.
    spec fn calls(&self) -> Seq<TransportCall>;

    /// The errors that calls can return. A transport stays what it is.
    spec fn faults(&self) -> Set<Error>;

    /// Writes all of `data`.
    fn write_all(&mut self, data: &[u8]) -> (r: Result<()>)
        ensures
            r is Ok ==> final(self).wire() == old(self).wire() + data@,
            r matches Err(e) ==> old(self).faults().contains(e),
            final(self).calls() == old(self).calls().push(
                TransportCall::Write { data: data@, fault: fault_of(r) },
            ),
            final(self).faults() == old(self).faults(),
    ;

    /// Pushes buffered bytes out.
    fn flush(&mut self) -> (r: Result<()>)
        ensures
            r is Ok ==> final(self).wire() == old(self).wire(),
            r matches Err(e) ==> old(self).faults().contains(e),
            final(self).calls() == old(self).calls().push(
                TransportCall::Flush { fault: fault_of(r) },
            ),
            final(self).faults() == old(self).faults(),
    ;
}

/// A call that a `MockTransport` was given.
#[derive(Debug)]
pub enum MockCall {
    Write(Vec<u8>),
    Flush,
    RefusedWrite(Vec<u8>),
    RefusedFlush,
}

impl MockCall {
    pub open spec fn call(self) -> TransportCall {
        match self {
            MockCall::Write(data) => wrote(data@),
            MockCall::Flush => pushed_out(),
            MockCall::RefusedWrite(data) => TransportCall::Write {
                data: data@,
                fault: Some(refusal()),
            },
            MockCall::RefusedFlush => TransportCall::Flush { fault: Some(refusal()) },
        }
    }
}

/// Which calls a `MockTransport` refuses.
#[derive(Debug, Clone, Copy, PartialEq, Eq, Structural)]
pub enum MockRefusal {
    Writes,
    Flushes,
}

/// The error of a refused call.
pub open spec fn refusal() -> Error {
    Error::SessionLifecycle("transport refused the call")
}

/// A transport that keeps what it is given.
#[derive(Debug)]
pub struct MockTransport {
    pub bytes: Vec<u8>,
    pub log: Vec<MockCall>,
    pub refuses: Option<MockRefusal>,
}

impl MockTransport {
    pub fn new() -> (r: MockTransport)
        ensures
            r.bytes@ == Seq::<u8>::empty(),
            r.log@ == Seq::<MockCall>::empty(),
            r.refuses is None,
    {
        MockTransport { bytes: Vec::new(), log: Vec::new(), refuses: None }
    }

    /// A transport that refuses some calls.
    pub fn refusing(calls: MockRefusal) -> (r: MockTransport)
        ensures
            r.bytes@ == Seq::<u8>::empty(),
            r.log@ == Seq::<MockCall>::empty(),
            r.refuses == Some(calls),
    {
        MockTransport { bytes: Vec::new(), log: Vec::new(), refuses: Some(calls) }
    }

    pub fn into_bytes(self) -> (r: Vec<u8>)
        ensures
            r@ == self.bytes@,
    {
        self.bytes
    }
}

impl TransportWrite for MockTransport {
    open spec fn wire(&self) -> Seq<u8> {
        self.bytes@
    }

    open spec fn calls(&self) -> Seq<TransportCall> {
        Seq::new(self.log@.len(), |i: int| self.log@[i].call())
    }

    open spec fn faults(&self) -> Set<Error> {
        if self.refuses is Some {
            set![refusal()]
        } else {
            Set::empty()
        }
    }

    fn write_all(&mut self, data: &[u8]) -> (r: Result<()>) {
        let mut copy: Vec<u8> = Vec::new();
        copy.extend_from_slice(data);
        assert(copy@ =~= data@);
        if let Some(MockRefusal::Writes) = self.refuses {
            self.log.push(MockCall::RefusedWrite(copy));
            assert(self.calls() =~= old(self).calls().push(
                TransportCall::Write { data: data@, fault: Some(refusal()) },
            ));
            return Err(Error::SessionLifecycle("transport refused the call"));
        }
        self.bytes.extend_from_slice(data);
        self.log.push(MockCall::Write(copy));
        assert(self.calls() =~= old(self).calls().push(wrote(data@)));
        Ok(())
    }

    fn flush(&mut self) -> (r: Result<()>) {
        if let Some(MockRefusal::Flushes) = self.refuses {
            self.log.push(MockCall::RefusedFlush);
            assert(self.calls() =~= old(self).calls().push(
                TransportCall::Flush { fault: Some(refusal()) },
            ));
            return Err(Error::SessionLifecycle("transport refused the call"));
        }
        self.log.push(MockCall::Flush);
        assert(self.calls() =~= old(self).calls().push(pushed_out()));
        Ok(())
    }
}

/// A call is recorded with the error that it returned, and without one if it returned
/// none.
pub proof fn lemma_calls_record_outcome(r: Result<()>, data: Seq<u8>)
    ensures
        r is Ok ==> fault_of(r) is None,
        r matches Err(e) ==> fault_of(r) == Some(e),
        wrote(data) matches TransportCall::Write { data: d, fault } && d == data && fault is None,
        pushed_out() matches TransportCall::Flush { fault } && fault is None,
{
}

/// Calls behind other calls add their writes and their data to them.
pub proof fn lemma_calls_add_up(calls: Seq<TransportCall>, more: Seq<TransportCall>, data: Seq<u8>)
    ensures
        write_count(calls + more) == write_count(calls) + write_count(more),
        written_data(calls + more) == written_data(calls) + written_data(more),
        write_count(Seq::empty()) == 0,
        written_data(Seq::empty()).len() == 0,
        write_count(seq![wrote(data)]) == 1,
        written_data(seq![wrote(data)]) == data,
        write_count(seq![pushed_out()]) == 0,
        written_data(seq![pushed_out()]).len() == 0,
{
    lemma_more_calls(calls, more);
    reveal_with_fuel(write_count, 2);
    reveal_with_fuel(written_data, 2);
    let w = seq![wrote(data)];
    let f = seq![pushed_out()];
    assert(w.drop_last() =~= Seq::<TransportCall>::empty());
    assert(f.drop_last() =~= Seq::<TransportCall>::empty());
    assert(written_data(w) =~= data);
}

/// What a mock transport notes down tells writes from flushes and accepted calls from
/// refused ones, and one that refuses nothing never fails.
pub proof fn lemma_mock_notes_calls(data: Vec<u8>, m: MockTransport, e: Error)
    ensures
        MockCall::Write(data).call() matches TransportCall::Write { data: d, fault } && d == data@
            && fault is None,
        MockCall::RefusedWrite(data).call() matches TransportCall::Write { data: d, fault } && d
            == data@ && fault is Some,
        MockCall::Flush.call() matches TransportCall::Flush { fault } && fault is None,
        MockCall::RefusedFlush.call() matches TransportCall::Flush { fault } && fault is Some,
        m.refuses is None ==> !m.faults().contains(e),
        m.refuses is Some ==> m.faults().contains(
            Error::SessionLifecycle("transport refused the call"),
        ),
{
}

/// A mock that refuses has nothing sent yet, and gives back the bytes that it got.
pub proof fn lemma_mock_gives_bytes_back(calls: MockRefusal, m: MockTransport, d: MockTransport, r: Vec<u8>)
    requires
        call_ensures(MockTransport::refusing, (calls,), m),
        call_ensures(MockTransport::into_bytes, (d,), r),
    ensures
        m.bytes@.len() == 0 && m.log@.len() == 0,
        m.refuses == Some(calls),
        r@ == d.bytes@,
{
}

/// A new mock refuses nothing and has nothing sent yet.
pub proof fn lemma_new_mock_takes_all(m: MockTransport)
    requires
        call_ensures(MockTransport::new, (), m),
    ensures
        m.bytes@.len() == 0 && m.log@.len() == 0,
        m.refuses is None,
{
}

/// The error of a call that a mock refuses, and which calls it refuses.
pub proof fn lemma_mock_refuses(m: &mut MockTransport, data: &[u8], r: Result<()>)
    ensures
        call_ensures(MockTransport::write_all, (m, data), r) && old(m).refuses is None ==> r is Ok,
        call_ensures(MockTransport::flush, (m,), r) && old(m).refuses is None ==> r is Ok,
        (call_ensures(MockTransport::write_all, (m, data), r) || call_ensures(
            MockTransport::flush,
            (m,),
            r,
        )) && r is Err ==> r == Err::<(), Error>(
            Error::SessionLifecycle("transport refused the call"),
        ),
{
}

} // verus!
