//! Byte sinks: where the lines go.

use vstd::prelude::*;

verus! {

/// `std::io::Error`, carried from the sink to the caller as it is.
#[verifier::external_type_specification]
#[verifier::external_body]
pub struct ExIoError(std::io::Error);

/// `std::io::Stdout`, the handle to the process's standard output.
#[verifier::external_type_specification]
#[verifier::external_body]
pub struct ExStdout(std::io::Stdout);

/// A sink with a model: what it has taken so far, whether it can fail, and how
/// its last write ended.
pub trait ByteSink {
    /// The bytes the sink has taken, oldest first.
    spec fn written(&self) -> Seq<u8>;

    /// Whether every write to this sink succeeds.
    spec fn never_fails(&self) -> bool;

    /// The error of the most recent write, if that write failed.
    spec fn last_error(&self) -> Option<std::io::Error>;

    /// Hands `bytes` to the sink.
    ///
    /// A write that succeeds appends exactly `bytes`. One that fails may have
    /// appended some leading part of `bytes`, and nothing else; the error it
    /// returns is the one the sink then holds as its last.
    fn write_bytes(&mut self, bytes: &[u8]) -> (outcome: Result<(), std::io::Error>)
        ensures
            final(self).never_fails() == old(self).never_fails(),
            old(self).never_fails() ==> outcome is Ok,
            outcome is Ok ==> final(self).written() == old(self).written() + bytes@,
            outcome is Ok ==> final(self).last_error() is None,
            outcome is Err ==> old(self).written().is_prefix_of(final(self).written()),
            outcome is Err ==> final(self).written().is_prefix_of(old(self).written() + bytes@),
            outcome matches Err(error) ==> final(self).last_error() == Some(error),
    ;
}

/// A growable buffer in memory: it takes every write whole.
impl ByteSink for Vec<u8> {
    open spec fn written(&self) -> Seq<u8> {
        self@
    }

    open spec fn never_fails(&self) -> bool {
        true
    }

    open spec fn last_error(&self) -> Option<std::io::Error> {
        None
    }

    fn write_bytes(&mut self, bytes: &[u8]) -> (outcome: Result<(), std::io::Error>) {
        self.extend_from_slice(bytes);
        Ok(())
    }
}

/// A sink without a model: all that is known of a write is its outcome.
pub trait RawSink {
    /// Hands `bytes` to the sink, which says whether it took them all.
    fn write_raw(&mut self, bytes: &[u8]) -> Result<(), std::io::Error>;
}

/// Calls `std::io::Write::write_all` on standard output. Nothing is claimed
/// of the outcome: whether the write succeeds is decided outside the process.
#[verifier::external_body]
fn stdout_write_all(handle: &mut std::io::Stdout, bytes: &[u8]) -> Result<(), std::io::Error> {
    std::io::Write::write_all(handle, bytes)
}

impl RawSink for std::io::Stdout {
    fn write_raw(&mut self, bytes: &[u8]) -> Result<(), std::io::Error> {
        stdout_write_all(self, bytes)
    }
}

/// A borrowed raw sink is a raw sink: a write through the borrow is one write
/// of the sink behind it.
impl<'a, S: RawSink> RawSink for &'a mut S {
    /// Hands `bytes` to the borrowed sink. The outcome, and what becomes of
    /// that sink, are those of its own `write_raw` on the same bytes; the
    /// borrow stays on the same sink.
    fn write_raw(&mut self, bytes: &[u8]) -> (outcome: Result<(), std::io::Error>)
        ensures
            *final(*final(self)) == *final(*old(self)),
            exists|inner: &mut S|
                *inner == **old(self) && *final(inner) == **final(self) && #[trigger] call_ensures(
                    S::write_raw,
                    (inner, bytes),
                    outcome,
                ),
    {
        (**self).write_raw(bytes)
    }
}

/// A raw sink together with the record of what it has taken.
///
/// The record holds the bytes of every write that the sink took whole. Of a
/// write that failed it holds nothing, whatever part of it the sink may have
/// let through.
pub struct Logged<S> {
    sink: S,
    log: Ghost<Seq<u8>>,
    refusal: Ghost<Option<std::io::Error>>,
}

impl<S> Logged<S> {
    /// Wraps `sink` with an empty record.
    pub fn new(sink: S) -> (logged: Self)
        ensures
            logged.sink() == sink,
            logged.log() == Seq::<u8>::empty(),
            logged.refusal() is None,
    {
        Logged { sink, log: Ghost(Seq::empty()), refusal: Ghost(None) }
    }

    /// The wrapped sink.
    pub closed spec fn sink(&self) -> S {
        self.sink
    }

    /// The bytes of the writes that the sink took whole, oldest first.
    pub closed spec fn log(&self) -> Seq<u8> {
        self.log@
    }

    /// The error with which the sink refused the most recent write, if it
    /// refused it.
    pub closed spec fn refusal(&self) -> Option<std::io::Error> {
        self.refusal@
    }

    /// Gives the sink back and drops the record.
    pub fn into_inner(self) -> (sink: S)
        ensures
            sink == self.sink(),
    {
        self.sink
    }
}

impl<S: RawSink> ByteSink for Logged<S> {
    open spec fn written(&self) -> Seq<u8> {
        self.log()
    }

    open spec fn never_fails(&self) -> bool {
        false
    }

    open spec fn last_error(&self) -> Option<std::io::Error> {
        self.refusal()
    }

    fn write_bytes(&mut self, bytes: &[u8]) -> (outcome: Result<(), std::io::Error>)
        ensures
            outcome is Err ==> final(self).log() == old(self).log(),
    {
        let outcome = self.sink.write_raw(bytes);
        proof {
            if outcome is Ok {
                self.log@ = self.log@ + bytes@;
            }
            self.refusal@ = outcome.err();
        }
        outcome
    }
}

} // verus!
