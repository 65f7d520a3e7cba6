//! The output handle: generated text, consumable exactly one way.
//!
//! An [`Output`] owns the ordered fragments a backend produced.  The caller
//! picks one of two consumption modes: the immediate mode yields the whole
//! text as one string, the streaming mode yields the fragments one at a
//! time, in production order, until exhausted.  The first consumption fixes
//! the mode; the other mode then fails with the matching error rather than
//! misbehaving.  Concatenating everything the stream delivers equals the
//! string the immediate mode returns.

use vstd::prelude::*;

verus! {

/// A consumption mode was already fixed by an earlier call.
#[derive(Clone, Copy, PartialEq, Eq, Structural, Debug)]
pub enum ConsumeError {
    /// The streaming mode was already taken; the immediate mode is barred.
    AlreadyConsumedAsStream,
    /// The immediate mode was already taken; the streaming mode is barred.
    AlreadyConsumedAsImmediate,
}

/// Which consumption mode, if any, has been fixed so far.
#[derive(Debug)]
enum Consumption {
    /// Neither mode taken yet.
    Fresh,
    /// The immediate mode was taken; the completed text is cached.
    Immediate(String),
    /// The streaming mode was taken; the index of the next fragment due.
    Streaming(usize),
}

/// The concatenation of a sequence of fragments, in order.
pub open spec fn spec_concat(frags: Seq<Seq<char>>) -> Seq<char>
    decreases frags.len(),
{
    if frags.len() == 0 {
        Seq::<char>::empty()
    } else {
        frags[0] + spec_concat(frags.drop_first())
    }
}

/// Law: what a stream consumed up to position `k` has delivered, followed
/// by what it still holds, is exactly the immediate string — fragment
/// delivery loses, duplicates and reorders nothing, so concatenating every
/// delivered fragment of an exhausted stream equals what the immediate mode
/// returns for the same output.
pub proof fn lemma_concat_split(frags: Seq<Seq<char>>, k: int)
    requires
        0 <= k <= frags.len(),
    ensures
        spec_concat(frags) =~= spec_concat(frags.take(k)) + spec_concat(frags.skip(k)),
    decreases k,
{
    if k == 0 {
        assert(frags.take(0).len() == 0);
        assert(frags.skip(0) =~= frags);
        assert(Seq::<char>::empty() + spec_concat(frags) =~= spec_concat(frags));
    } else {
        let df = frags.drop_first();
        lemma_concat_split(df, k - 1);
        assert(frags.take(k)[0] == frags[0]);
        assert(frags.take(k).drop_first() =~= df.take(k - 1));
        assert(frags.skip(k) =~= df.skip(k - 1));
        assert(frags[0] + (spec_concat(df.take(k - 1)) + spec_concat(df.skip(k - 1))) =~= (frags[0]
            + spec_concat(df.take(k - 1))) + spec_concat(df.skip(k - 1)));
    }
}

/// A handle to one generation's output.
#[derive(Debug)]
pub struct Output {
    fragments: Vec<String>,
    state: Consumption,
}

impl Output {
    /// The ordered fragments the backend produced.
    pub closed spec fn fragments(self) -> Seq<Seq<char>> {
        self.fragments.deep_view()
    }

    /// Neither consumption mode has been taken yet.
    pub closed spec fn is_fresh(self) -> bool {
        self.state is Fresh
    }

    /// The immediate mode has been taken.
    pub closed spec fn is_immediate(self) -> bool {
        self.state is Immediate
    }

    /// The streaming mode has been taken.
    pub closed spec fn is_streaming(self) -> bool {
        self.state is Streaming
    }

    /// How many fragments the stream has already delivered.
    pub closed spec fn stream_pos(self) -> int {
        match self.state {
            Consumption::Streaming(k) => k as int,
            _ => 0,
        }
    }

    /// Internal consistency: the cache equals the concatenation, and the
    /// stream position never passes the end.
    pub closed spec fn wf(self) -> bool {
        match self.state {
            Consumption::Fresh => true,
            Consumption::Immediate(c) => c@ == spec_concat(self.fragments()),
            Consumption::Streaming(k) => k <= self.fragments().len(),
        }
    }

    /// The three modes are mutually exclusive: an output is fresh, fixed
    /// to the immediate mode, or fixed to the streaming mode, and never two
    /// of these at once.
    pub proof fn lemma_mode_exclusive(self)
        ensures
            self.is_fresh() ==> !self.is_immediate() && !self.is_streaming(),
            self.is_immediate() ==> !self.is_fresh() && !self.is_streaming(),
            self.is_streaming() ==> !self.is_fresh() && !self.is_immediate(),
    {
    }

    /// Wraps freshly generated fragments; no mode is taken yet.
    pub fn new(fragments: Vec<String>) -> (r: Output)
        ensures
            r.fragments() == fragments.deep_view(),
            r.is_fresh(),
            r.wf(),
    {
        Output { fragments, state: Consumption::Fresh }
    }

    /// Consumes the output as one completed string.
    ///
    /// The first call fixes the immediate mode and returns the
    /// concatenation of all fragments; every later call returns the cached
    /// string again without touching any backend.  Fails with
    /// `AlreadyConsumedAsStream` if the streaming mode was taken first, and
    /// then changes nothing.
    pub fn to_immediate(&mut self) -> (r: Result<String, ConsumeError>)
        requires
            old(self).wf(),
        ensures
            final(self).wf(),
            final(self).fragments() == old(self).fragments(),
            old(self).is_streaming() ==> {
                &&& r matches Err(e) && e == ConsumeError::AlreadyConsumedAsStream
                &&& final(self).is_streaming()
                &&& final(self).stream_pos() == old(self).stream_pos()
            },
            !old(self).is_streaming() ==> {
                &&& r matches Ok(s) && s@ == spec_concat(old(self).fragments())
                &&& final(self).is_immediate()
            },
    {
        match &self.state {
            Consumption::Streaming(_) => Err(ConsumeError::AlreadyConsumedAsStream),
            Consumption::Immediate(c) => Ok(String::from_str(c.as_str())),
            Consumption::Fresh => {
                let ghost frags = self.fragments();
                let n = self.fragments.len();
                let mut s = String::new();
                proof {
                    assert(frags.skip(0) =~= frags);
                }
                for i in 0..n
                    invariant
                        n == self.fragments.len(),
                        frags == self.fragments(),
                        spec_concat(frags) == s@ + spec_concat(frags.skip(i as int)),
                {
                    let ghost old_s = s@;
                    s.append(self.fragments[i].as_str());
                    proof {
                        assert(frags.skip(i as int)[0] == frags[i as int]);
                        assert(frags.skip(i as int).drop_first() =~= frags.skip(i + 1));
                        assert(old_s + (frags[i as int] + spec_concat(frags.skip(i + 1))) =~= s@
                            + spec_concat(frags.skip(i + 1)));
                    }
                }
                proof {
                    assert(frags.skip(n as int).len() == 0);
                    assert(s@ + Seq::<char>::empty() =~= s@);
                }
                let cached = String::from_str(s.as_str());
                self.state = Consumption::Immediate(cached);
                Ok(s)
            },
        }
    }

    /// Fixes the streaming mode, after which [`Output::next_fragment`]
    /// yields the fragments in order.
    ///
    /// Fails with `AlreadyConsumedAsImmediate` if the immediate mode was
    /// taken first, and then changes nothing.  Calling it again while
    /// streaming is harmless: delivery continues where it stood, so an
    /// exhausted stream stays exhausted rather than restarting.
    pub fn as_stream(&mut self) -> (r: Result<(), ConsumeError>)
        requires
            old(self).wf(),
        ensures
            final(self).wf(),
            final(self).fragments() == old(self).fragments(),
            old(self).is_immediate() ==> {
                &&& r matches Err(e) && e == ConsumeError::AlreadyConsumedAsImmediate
                &&& final(self).is_immediate()
            },
            !old(self).is_immediate() ==> {
                &&& r is Ok
                &&& final(self).is_streaming()
                &&& final(self).stream_pos() == old(self).stream_pos()
            },
    {
        match &self.state {
            Consumption::Immediate(_) => Err(ConsumeError::AlreadyConsumedAsImmediate),
            Consumption::Streaming(_) => Ok(()),
            Consumption::Fresh => {
                self.state = Consumption::Streaming(0);
                Ok(())
            },
        }
    }

    /// Delivers the next fragment of the stream, or `None` once the stream
    /// is exhausted — permanently: delivery is forward-only and never
    /// restarts.  On a fresh output this takes the streaming mode, exactly
    /// as [`Output::as_stream`] does.  Fails with
    /// `AlreadyConsumedAsImmediate` if the immediate mode was taken first,
    /// and then changes nothing.
    pub fn next_fragment(&mut self) -> (r: Result<Option<String>, ConsumeError>)
        requires
            old(self).wf(),
        ensures
            final(self).wf(),
            final(self).fragments() == old(self).fragments(),
            old(self).is_immediate() ==> {
                &&& r matches Err(e) && e == ConsumeError::AlreadyConsumedAsImmediate
                &&& final(self).is_immediate()
            },
            !old(self).is_immediate() ==> {
                &&& final(self).is_streaming()
                &&& old(self).stream_pos() < old(self).fragments().len() ==> {
                    &&& r matches Ok(f) && f matches Some(s) && s@ == old(self).fragments()[old(self).stream_pos()]
                    &&& final(self).stream_pos() == old(self).stream_pos() + 1
                }
                &&& old(self).stream_pos() >= old(self).fragments().len() ==> {
                    &&& r matches Ok(f) && f is None
                    &&& final(self).stream_pos() == old(self).stream_pos()
                }
            },
    {
        let k: usize = match &self.state {
            Consumption::Immediate(_) => {
                return Err(ConsumeError::AlreadyConsumedAsImmediate);
            },
            Consumption::Streaming(k) => *k,
            Consumption::Fresh => 0,
        };
        if k < self.fragments.len() {
            let s = String::from_str(self.fragments[k].as_str());
            self.state = Consumption::Streaming(k + 1);
            Ok(Some(s))
        } else {
            self.state = Consumption::Streaming(k);
            Ok(None)
        }
    }
}

} // verus!
