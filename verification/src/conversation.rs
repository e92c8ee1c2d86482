//! Follow-up history: the requests the client sends and the turns it remembers.
//!
//! A question becomes part of the history only once its answer arrived
//! (`complete`); the history keeps the last `MAX_PREVIOUS_TURNS` turns, each
//! question and answer cut to `MAX_TURN_CHARS` characters. SEARCH WEB resends
//! the last prepared request, with its context and image, and its answer
//! replaces the one that request got before.
use vstd::prelude::*;

use crate::text::{take_chars, take_chars_of, trimmed};
use crate::validate::{query_check, validate_query};

verus! {

broadcast use vstd::string::group_string_axioms;

/// How many earlier question/answer pairs a follow-up carries.
pub const MAX_PREVIOUS_TURNS: usize = 4;

/// How many characters of a question or an answer the history keeps.
pub const MAX_TURN_CHARS: usize = 2000;

/// An image attached to a question.
pub struct ImagePayload {
    pub mime_type: String,
    pub data: String,
}

/// The abstract content of an image payload.
pub ghost struct ImageView {
    pub mime_type: Seq<char>,
    pub data: Seq<char>,
}

impl View for ImagePayload {
    type V = ImageView;

    open spec fn view(&self) -> ImageView {
        ImageView { mime_type: self.mime_type@, data: self.data@ }
    }
}

impl Clone for ImagePayload {
    fn clone(&self) -> (r: Self)
        ensures
            r@ == self@,
    {
        ImagePayload { mime_type: self.mime_type.clone(), data: self.data.clone() }
    }
}

/// One answered question.
pub struct ConversationTurn {
    pub query: String,
    pub answer: String,
}

/// The abstract content of a turn.
pub ghost struct TurnView {
    pub query: Seq<char>,
    pub answer: Seq<char>,
}

impl View for ConversationTurn {
    type V = TurnView;

    open spec fn view(&self) -> TurnView {
        TurnView { query: self.query@, answer: self.answer@ }
    }
}

impl Clone for ConversationTurn {
    fn clone(&self) -> (r: Self)
        ensures
            r@ == self@,
    {
        ConversationTurn { query: self.query.clone(), answer: self.answer.clone() }
    }
}

/// A request for the `/v1/query` endpoint.
pub struct AskRequest {
    pub query: String,
    pub previous_turns: Vec<ConversationTurn>,
    pub force_search: bool,
    pub image: Option<ImagePayload>,
    pub system_context: Option<String>,
}

/// The abstract content of a request.
pub ghost struct RequestView {
    pub query: Seq<char>,
    pub previous_turns: Seq<TurnView>,
    pub force_search: bool,
    pub image: Option<ImageView>,
    pub system_context: Option<Seq<char>>,
}

pub open spec fn turns_view(v: Seq<ConversationTurn>) -> Seq<TurnView> {
    v.map_values(|t: ConversationTurn| t@)
}

pub open spec fn image_view(i: Option<ImagePayload>) -> Option<ImageView> {
    match i {
        Some(p) => Some(p@),
        None => None,
    }
}

pub open spec fn string_option_view(s: Option<String>) -> Option<Seq<char>> {
    match s {
        Some(x) => Some(x@),
        None => None,
    }
}

impl View for AskRequest {
    type V = RequestView;

    open spec fn view(&self) -> RequestView {
        RequestView {
            query: self.query@,
            previous_turns: turns_view(self.previous_turns@),
            force_search: self.force_search,
            image: image_view(self.image),
            system_context: string_option_view(self.system_context),
        }
    }
}

fn clone_turns(v: &Vec<ConversationTurn>) -> (r: Vec<ConversationTurn>)
    ensures
        turns_view(r@) == turns_view(v@),
{
    clone_turns_from(v, 0)
}

/// The turns of `v` from index `start` on.
fn clone_turns_from(v: &Vec<ConversationTurn>, start: usize) -> (r: Vec<ConversationTurn>)
    requires
        start <= v@.len(),
    ensures
        turns_view(r@) == turns_view(v@).skip(start as int),
{
    let mut r: Vec<ConversationTurn> = Vec::new();
    let mut i: usize = start;
    while i < v.len()
        invariant
            start <= i <= v@.len(),
            r@.len() == i - start,
            turns_view(r@) == turns_view(v@).subrange(start as int, i as int),
        decreases v@.len() - i,
    {
        let ghost before = r@;
        let t = v[i].clone();
        r.push(t);
        proof {
            assert(r@ == before.push(t));
            assert(t@ == v@[i as int]@);
            assert(before.len() == i - start);
            assert forall|k: int| 0 <= k < r@.len() implies #[trigger] turns_view(r@)[k]
                == turns_view(v@).subrange(start as int, i + 1)[k] by {
                if k < before.len() {
                    assert(turns_view(before)[k] == turns_view(v@).subrange(start as int, i as int)[k]);
                }
            }
        }
        i = i + 1;
        assert(turns_view(r@) =~= turns_view(v@).subrange(start as int, i as int));
    }
    assert(turns_view(v@).subrange(start as int, i as int) =~= turns_view(v@).skip(start as int));
    r
}

fn clone_image(i: &Option<ImagePayload>) -> (r: Option<ImagePayload>)
    ensures
        image_view(r) == image_view(*i),
{
    match i {
        Some(p) => Some(p.clone()),
        None => None,
    }
}

fn clone_string_option(s: &Option<String>) -> (r: Option<String>)
    ensures
        string_option_view(r) == string_option_view(*s),
{
    match s {
        Some(x) => Some(x.clone()),
        None => None,
    }
}

impl Clone for AskRequest {
    fn clone(&self) -> (r: Self)
        ensures
            r@ == self@,
    {
        AskRequest {
            query: self.query.clone(),
            previous_turns: clone_turns(&self.previous_turns),
            force_search: self.force_search,
            image: clone_image(&self.image),
            system_context: clone_string_option(&self.system_context),
        }
    }
}

/// The follow-up state: the answered turns and the last prepared request.
pub struct Conversation {
    turns: Vec<ConversationTurn>,
    last_request: Option<AskRequest>,
}

/// The abstract state of a conversation.
pub ghost struct ConversationView {
    pub turns: Seq<TurnView>,
    pub last_request: Option<RequestView>,
}

pub open spec fn request_option_view(r: Option<AskRequest>) -> Option<RequestView> {
    match r {
        Some(x) => Some(x@),
        None => None,
    }
}

impl View for Conversation {
    type V = ConversationView;

    closed spec fn view(&self) -> ConversationView {
        ConversationView {
            turns: turns_view(self.turns@),
            last_request: request_option_view(self.last_request),
        }
    }
}

/// A conversation with no history and no request to search again.
pub open spec fn empty_conversation() -> ConversationView {
    ConversationView { turns: Seq::empty(), last_request: None }
}

/// A turn whose question and answer are within `MAX_TURN_CHARS` characters.
pub open spec fn turn_bounded(t: TurnView) -> bool {
    t.query.len() <= MAX_TURN_CHARS && t.answer.len() <= MAX_TURN_CHARS
}

/// A history of at most `MAX_PREVIOUS_TURNS` bounded turns.
pub open spec fn history_bounded(turns: Seq<TurnView>) -> bool {
    &&& turns.len() <= MAX_PREVIOUS_TURNS
    &&& forall|i: int| 0 <= i < turns.len() ==> turn_bounded(#[trigger] turns[i])
}

/// The invariant every conversation that `Conversation`'s own operations build keeps.
pub open spec fn conversation_wf(c: ConversationView) -> bool {
    &&& history_bounded(c.turns)
    &&& c.last_request matches Some(r) ==> history_bounded(r.previous_turns)
}

/// What `prepare` gives: the request to send, or the message shown.
pub open spec fn prepared(
    c: ConversationView,
    text: Seq<char>,
    force_search: bool,
    image: Option<ImageView>,
) -> Result<RequestView, Seq<char>> {
    if force_search {
        match c.last_request {
            Some(r) => Ok(RequestView { force_search: true, ..r }),
            None => Err("Enter a question"@),
        }
    } else {
        match query_check(text) {
            Ok(q) => Ok(
                RequestView {
                    query: q,
                    previous_turns: c.turns,
                    force_search: false,
                    image: image,
                    system_context: None,
                },
            ),
            Err(e) => Err(e),
        }
    }
}

/// The conversation after `prepare`: a prepared request becomes the one that
/// SEARCH WEB resends; the history is untouched.
pub open spec fn after_prepare(
    c: ConversationView,
    text: Seq<char>,
    force_search: bool,
    image: Option<ImageView>,
) -> ConversationView {
    match prepared(c, text, force_search, image) {
        Ok(r) => ConversationView { turns: c.turns, last_request: Some(r) },
        Err(_) => c,
    }
}

/// The turn that an answered request adds.
pub open spec fn new_turn(request: RequestView, answer: Seq<char>) -> TurnView {
    TurnView {
        query: take_chars(request.query, MAX_TURN_CHARS as nat),
        answer: take_chars(answer, MAX_TURN_CHARS as nat),
    }
}

/// The history after an answer arrived: the request's own context, the new
/// turn, and only the last `MAX_PREVIOUS_TURNS` of these.
pub open spec fn completed_turns(request: RequestView, answer: Seq<char>) -> Seq<TurnView> {
    let all = request.previous_turns.push(new_turn(request, answer));
    if all.len() > MAX_PREVIOUS_TURNS {
        all.skip(all.len() - MAX_PREVIOUS_TURNS)
    } else {
        all
    }
}

pub open spec fn result_view(r: Result<AskRequest, String>) -> Result<RequestView, Seq<char>> {
    match r {
        Ok(x) => Ok(x@),
        Err(e) => Err(e@),
    }
}

impl Conversation {
    /// A conversation with no history.
    pub fn new() -> (c: Self)
        ensures
            c@ == empty_conversation(),
    {
        let c = Conversation { turns: Vec::new(), last_request: None };
        assert(c@.turns =~= Seq::<TurnView>::empty());
        c
    }

    /// Builds the next request. A new question is trimmed, checked, and carries
    /// the history and the attached image; `force_search` resends the last
    /// prepared request with web search forced.
    pub fn prepare(&mut self, text: &str, force_search: bool, image: Option<ImagePayload>) -> (r:
        Result<AskRequest, String>)
        ensures
            result_view(r) == prepared(old(self)@, text@, force_search, image_view(image)),
            final(self)@ == after_prepare(old(self)@, text@, force_search, image_view(image)),
            conversation_wf(old(self)@) ==> conversation_wf(final(self)@),
            conversation_wf(old(self)@) ==> (r matches Ok(req) ==> history_bounded(
                req@.previous_turns,
            )),
            r matches Ok(req) ==> (req.force_search <==> force_search),
            !force_search ==> (r matches Ok(req) ==> req@.query == trimmed(text@)
                && req@.previous_turns == old(self)@.turns && req@.image == image_view(image)),
    {
        let request = if force_search {
            match &self.last_request {
                Some(last) => {
                    let mut request = last.clone();
                    request.force_search = true;
                    request
                },
                None => {
                    return Err(String::from_str("Enter a question"));
                },
            }
        } else {
            match validate_query(text) {
                Ok(q) => AskRequest {
                    query: q.to_owned(),
                    previous_turns: clone_turns(&self.turns),
                    force_search: false,
                    image: image,
                    system_context: None,
                },
                Err(e) => {
                    return Err(e);
                },
            }
        };
        self.last_request = Some(request.clone());
        Ok(request)
    }

    /// Records the answer to `request`. The history becomes the request's own
    /// context followed by the new turn, cut to the last `MAX_PREVIOUS_TURNS`
    /// turns; question and answer are cut to `MAX_TURN_CHARS` characters.
    pub fn complete(&mut self, request: &AskRequest, answer: &str)
        ensures
            final(self)@.turns == completed_turns(request@, answer@),
            final(self)@.last_request == old(self)@.last_request,
            conversation_wf(old(self)@) && history_bounded(request@.previous_turns)
                ==> conversation_wf(final(self)@),
    {
        let n = request.previous_turns.len();
        let excess: usize = if n >= MAX_PREVIOUS_TURNS {
            n - (MAX_PREVIOUS_TURNS - 1)
        } else {
            0
        };
        let mut turns = clone_turns_from(&request.previous_turns, excess);
        let turn = ConversationTurn {
            query: take_chars_of(request.query.as_str(), MAX_TURN_CHARS),
            answer: take_chars_of(answer, MAX_TURN_CHARS),
        };
        let ghost kept = turns@;
        turns.push(turn);
        proof {
            assert(turns@ == kept.push(turn));
            assert(turns_view(turns@) =~= turns_view(kept).push(turn@));
        }
        self.turns = turns;
        proof {
            let all = request@.previous_turns.push(new_turn(request@, answer@));
            assert(turn@ == new_turn(request@, answer@));
            assert(turns_view(self.turns@) =~= all.skip(excess as int));
            if all.len() <= MAX_PREVIOUS_TURNS {
                assert(all.skip(0) =~= all);
            }
            lemma_completed_bounded(request@, answer@);
        }
    }

    /// Forgets the history and the request SEARCH WEB would resend.
    pub fn clear(&mut self)
        ensures
            final(self)@ == empty_conversation(),
    {
        *self = Self::new();
    }
}

impl Default for Conversation {
    fn default() -> (c: Self)
        ensures
            c@ == empty_conversation(),
    {
        Self::new()
    }
}

proof fn lemma_completed_bounded(request: RequestView, answer: Seq<char>)
    ensures
        completed_turns(request, answer).len() <= MAX_PREVIOUS_TURNS,
        completed_turns(request, answer).len() > 0,
        completed_turns(request, answer).last() == new_turn(request, answer),
        turn_bounded(new_turn(request, answer)),
        history_bounded(request.previous_turns) ==> history_bounded(
            completed_turns(request, answer),
        ),
{
    let all = request.previous_turns.push(new_turn(request, answer));
    let c = completed_turns(request, answer);
    if all.len() > MAX_PREVIOUS_TURNS {
        assert(c.last() == all.last());
    }
    if history_bounded(request.previous_turns) {
        assert forall|i: int| 0 <= i < c.len() implies turn_bounded(#[trigger] c[i]) by {
            if all.len() > MAX_PREVIOUS_TURNS {
                assert(c[i] == all[i + all.len() - MAX_PREVIOUS_TURNS]);
            }
            if i + (all.len() - c.len()) < request.previous_turns.len() {
                assert(all[i + (all.len() - c.len())] == request.previous_turns[i + (all.len()
                    - c.len())]);
            }
        }
    }
}

/// The history never holds more than `MAX_PREVIOUS_TURNS` turns, its newest
/// turn is the one just answered, and no kept question or answer is longer than
/// `MAX_TURN_CHARS` characters when the request came from a bounded history.
pub proof fn history_is_bounded(request: RequestView, answer: Seq<char>)
    ensures
        completed_turns(request, answer).len() <= MAX_PREVIOUS_TURNS,
        completed_turns(request, answer).last() == new_turn(request, answer),
        turn_bounded(new_turn(request, answer)),
        history_bounded(request.previous_turns) ==> history_bounded(
            completed_turns(request, answer),
        ),
{
    lemma_completed_bounded(request, answer);
}

/// Follow-ups carry the successful turns in order, oldest first: completing
/// a request of a bounded history that has room keeps every earlier turn and
/// appends the new one.
pub proof fn followups_keep_turns_in_order(request: RequestView, answer: Seq<char>)
    requires
        request.previous_turns.len() < MAX_PREVIOUS_TURNS,
    ensures
        completed_turns(request, answer) == request.previous_turns.push(
            new_turn(request, answer),
        ),
{
}

/// A request that fails to be prepared leaves the history and the request
/// that SEARCH WEB resends as they were.
pub proof fn failed_prepare_changes_nothing(
    c: ConversationView,
    text: Seq<char>,
    force_search: bool,
    image: Option<ImageView>,
)
    requires
        prepared(c, text, force_search, image) is Err,
    ensures
        after_prepare(c, text, force_search, image) == c,
{
}

/// SEARCH WEB after an answered question resends that question with its
/// context and image, and its answer replaces the one the question got:
/// the history after the retry is what it would have been had the first
/// answer been the second.
pub proof fn search_retry_replaces_answer(
    c: ConversationView,
    text: Seq<char>,
    image: Option<ImageView>,
    first_answer: Seq<char>,
    second_answer: Seq<char>,
)
    requires
        prepared(c, text, false, image) is Ok,
    ensures
        ({
            let first = prepared(c, text, false, image)->Ok_0;
            let answered = ConversationView {
                turns: completed_turns(first, first_answer),
                last_request: after_prepare(c, text, false, image).last_request,
            };
            let retry = prepared(answered, Seq::empty(), true, None);
            &&& retry is Ok
            &&& retry->Ok_0.query == first.query
            &&& retry->Ok_0.previous_turns == first.previous_turns
            &&& retry->Ok_0.image == image
            &&& retry->Ok_0.force_search
            &&& completed_turns(retry->Ok_0, second_answer) == completed_turns(
                first,
                second_answer,
            )
        }),
{
}

/// After `clear` nothing can be searched again and the next question carries
/// no history.
pub proof fn clear_starts_fresh(text: Seq<char>, image: Option<ImageView>)
    ensures
        prepared(empty_conversation(), Seq::empty(), true, None) == Err::<RequestView, Seq<char>>(
            "Enter a question"@,
        ),
        prepared(empty_conversation(), text, false, image) matches Ok(r)
            ==> r.previous_turns.len() == 0,
{
}

/// Preparing a request never changes the history: only an answer does, so a
/// request that fails on the way is not remembered as a turn.
pub proof fn prepare_keeps_history(
    c: ConversationView,
    text: Seq<char>,
    force_search: bool,
    image: Option<ImageView>,
)
    ensures
        after_prepare(c, text, force_search, image).turns == c.turns,
{
}

/// Earlier images are not sent again: after an answered question, the next
/// new question carries only the image attached to it.
pub proof fn followups_drop_earlier_images(
    c: ConversationView,
    text: Seq<char>,
    image: Option<ImageView>,
    answer: Seq<char>,
    next_text: Seq<char>,
    next_image: Option<ImageView>,
)
    requires
        prepared(c, text, false, image) is Ok,
    ensures
        ({
            let first = prepared(c, text, false, image)->Ok_0;
            let answered = ConversationView {
                turns: completed_turns(first, answer),
                last_request: after_prepare(c, text, false, image).last_request,
            };
            prepared(answered, next_text, false, next_image) matches Ok(r) ==> r.image
                == next_image && r.previous_turns == completed_turns(first, answer)
        }),
{
}

/// A new question is sent as typed (trimmed), with the history as it stands
/// and the image attached to it, and never forces a web search; it is
/// accepted exactly when its trimmed text is 1 to 4000 characters long.
pub proof fn new_questions_do_not_force_search(
    c: ConversationView,
    text: Seq<char>,
    image: Option<ImageView>,
)
    ensures
        prepared(c, text, false, image) is Ok <==> (0 < trimmed(text).len() <= 4000),
        prepared(c, text, false, image) matches Ok(r) ==> {
            &&& !r.force_search
            &&& r.query == trimmed(text)
            &&& r.previous_turns == c.turns
            &&& r.image == image
            &&& r.system_context is None
        },
{
}

/// SEARCH WEB resends the last prepared request, whatever was typed, with
/// a web search forced; without one there is nothing to resend.
pub proof fn search_web_resends_the_last_request(
    c: ConversationView,
    text: Seq<char>,
    image: Option<ImageView>,
)
    ensures
        prepared(c, text, true, image) is Ok <==> c.last_request is Some,
        prepared(c, text, true, image) matches Ok(r) ==> {
            &&& r.force_search
            &&& r.query == c.last_request->Some_0.query
            &&& r.previous_turns == c.last_request->Some_0.previous_turns
            &&& r.image == c.last_request->Some_0.image
        },
{
}

} // verus!
