//! A streamed completion: chunks arrive one by one and the fragments of
//! text they bring are put together in arrival order.
use vstd::prelude::*;
use crate::errors::ChatError;
use crate::json::{parsed, Json};
use crate::response::{delta_of, get_delta};
use crate::text::same_text;

verus! {

/// What has been gathered from a stream so far.
#[derive(Debug)]
pub struct StreamCollector {
    pub text: String,
    pub produced: bool,
    pub ended: bool,
}

/// The model of a [`StreamCollector`]: the text so far, whether any chunk
/// brought a fragment, and whether the end marker was seen.
pub struct StreamState {
    pub text: Seq<char>,
    pub produced: bool,
    pub ended: bool,
}

impl View for StreamCollector {
    type V = StreamState;

    open spec fn view(&self) -> StreamState {
        StreamState { text: self.text@, produced: self.produced, ended: self.ended }
    }
}

/// The chunk that ends a stream.
pub open spec fn end_marker() -> Seq<char> {
    "[DONE]"@
}

/// The state at the start of a stream.
pub open spec fn initial() -> StreamState {
    StreamState { text: Seq::empty(), produced: false, ended: false }
}

/// The state after a chunk whose reading gave `fragment`.
pub open spec fn extended(state: StreamState, fragment: Option<Seq<char>>) -> StreamState {
    match fragment {
        Some(more) => StreamState { text: state.text + more, produced: true, ended: state.ended },
        None => state,
    }
}

/// The fragment of text that a chunk brings: none where the chunk is no
/// JSON, or has no `choices[0].delta.content` string.
pub open spec fn fragment_of(chunk: Seq<char>) -> Option<Seq<char>> {
    match parsed(chunk) {
        None => None,
        Some(document) => delta_of(document),
    }
}

/// The state after `chunk` arrived. Nothing changes once the stream has
/// ended; the end marker ends it; any other chunk adds its fragment, and a
/// chunk without one is skipped.
pub open spec fn fed(state: StreamState, chunk: Seq<char>) -> StreamState {
    if state.ended {
        state
    } else if chunk == end_marker() {
        StreamState { text: state.text, produced: state.produced, ended: true }
    } else {
        extended(state, fragment_of(chunk))
    }
}

/// The state after all of `chunks` arrived in order.
pub open spec fn fed_all(state: StreamState, chunks: Seq<Seq<char>>) -> StreamState
    decreases chunks.len(),
{
    if chunks.len() == 0 {
        state
    } else {
        fed(fed_all(state, chunks.drop_last()), chunks.last())
    }
}

/// What a stream amounts to when it closes: its text, or a
/// `ParseResponseError` where no chunk brought any.
pub open spec fn outcome(state: StreamState) -> Result<Seq<char>, ChatError> {
    if state.produced {
        Ok(state.text)
    } else {
        Err(ChatError::ParseResponseError)
    }
}

/// The views of `texts`, in order.
pub open spec fn chunk_views(texts: Seq<String>) -> Seq<Seq<char>> {
    Seq::new(texts.len(), |i: int| texts[i]@)
}

/// A stream only grows: what was gathered before a chunk is the start of
/// what is gathered after it, and content once produced stays produced.
pub proof fn lemma_fed_extends(state: StreamState, chunk: Seq<char>)
    ensures
        fed(state, chunk).text.len() >= state.text.len(),
        fed(state, chunk).text.subrange(0, state.text.len() as int) == state.text,
        state.produced ==> fed(state, chunk).produced,
        state.ended ==> fed(state, chunk) == state,
{
    assert(fed(state, chunk).text.subrange(0, state.text.len() as int) =~= state.text);
}

/// Chunks that arrive after the end marker change nothing.
pub proof fn lemma_nothing_after_end(state: StreamState, chunks: Seq<Seq<char>>)
    requires
        state.ended,
    ensures
        fed_all(state, chunks) == state,
    decreases chunks.len(),
{
    if chunks.len() > 0 {
        lemma_nothing_after_end(state, chunks.drop_last());
    }
}

impl StreamCollector {
    /// The collector at the start of a stream.
    pub fn new() -> (collector: StreamCollector)
        ensures
            collector@ == initial(),
    {
        StreamCollector { text: String::new(), produced: false, ended: false }
    }

    /// Takes in what reading a chunk gave: its fragment of text, if it
    /// brought one.
    pub fn extend(&mut self, fragment: Option<&str>)
        ensures
            final(self)@ == extended(
                old(self)@,
                match fragment {
                    Some(more) => Some(more@),
                    None => None,
                },
            ),
    {
        match fragment {
            Some(more) => {
                self.text.append(more);
                self.produced = true;
            },
            None => {},
        }
    }

    /// Takes in the next chunk of the stream.
    pub fn feed(&mut self, chunk: &str)
        ensures
            final(self)@ == fed(old(self)@, chunk@),
    {
        if self.ended {
            return ;
        }
        if same_text(chunk, "[DONE]") {
            self.ended = true;
            return ;
        }
        match Json::parse(chunk) {
            Err(_) => {
                self.extend(None);
            },
            Ok(document) => {
                self.extend(get_delta(&document));
            },
        }
    }

    /// Closes the stream: the text gathered, or a `ParseResponseError`
    /// where no chunk brought any.
    pub fn finish(self) -> (r: Result<String, ChatError>)
        ensures
            match r {
                Ok(text) => outcome(self@) == Ok::<Seq<char>, ChatError>(text@),
                Err(error) => outcome(self@) == Err::<Seq<char>, ChatError>(error),
            },
    {
        if self.produced {
            Ok(self.text)
        } else {
            Err(ChatError::ParseResponseError)
        }
    }
}

/// Gathers the text of a stream whose chunks are all at hand.
pub fn collect_stream(chunks: &Vec<String>) -> (r: Result<String, ChatError>)
    ensures
        match r {
            Ok(text) => outcome(fed_all(initial(), chunk_views(chunks@))) == Ok::<Seq<char>, ChatError>(
                text@,
            ),
            Err(error) => outcome(fed_all(initial(), chunk_views(chunks@))) == Err::<Seq<char>, ChatError>(
                error,
            ),
        },
{
    let mut collector = StreamCollector::new();
    let mut i: usize = 0;
    proof {
        assert(chunk_views(chunks@).take(0) =~= Seq::<Seq<char>>::empty());
    }
    while i < chunks.len()
        invariant
            i <= chunks@.len(),
            collector@ == fed_all(initial(), chunk_views(chunks@).take(i as int)),
        decreases chunks@.len() - i,
    {
        collector.feed(chunks[i].as_str());
        proof {
            let views = chunk_views(chunks@);
            assert(views.take(i + 1).drop_last() =~= views.take(i as int));
            assert(views.take(i + 1).last() == chunks@[i as int]@);
        }
        i += 1;
    }
    proof {
        assert(chunk_views(chunks@).take(i as int) =~= chunk_views(chunks@));
    }
    collector.finish()
}

} // verus!
