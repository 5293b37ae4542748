//! The application state and its transitions.
//!
//! One [`Tronk`] holds the card store, the undo history, the cursor and the
//! two text buffers. Each event of the host (a line entered, a key pressed,
//! a card clicked, an inference finished) is one method, and each method's
//! contract gives the state after it as a function of the state before.

use vstd::prelude::*;
use vstd::string::*;
use crate::card::{clone_cards, is_random_id, Card, CardView};
use crate::command::{
    add_word, command_of, lemma_line_names_its_card, ollama_word, parse_command, Command,
    CommandView,
};
use crate::inference::{inference_reply, reply_text};
use crate::navigation::{cursor_after, move_cursor, Signal};
use crate::text::{is_whitespace, lemma_trimmed_is_idempotent, trim, trimmed};

verus! {

/// The message for a description that is no card.
pub open spec fn invalid_format_message() -> Seq<char> {
    "invalid card format. try: '/add cardname #tag1,tag2 @folder1,folder2'"@
}

/// The message for a card without a name.
pub open spec fn empty_name_message() -> Seq<char> {
    "card name cannot be empty"@
}

/// The message for `/ollama` without a prompt.
pub open spec fn no_prompt_message() -> Seq<char> {
    "no prompt provided"@
}

/// The message for a new card called `name`.
pub open spec fn created_message(name: Seq<char>) -> Seq<char> {
    "card created with name: "@ + name
}

/// The message for the line `input` while its answer is awaited.
pub open spec fn processing_message(input: Seq<char>) -> Seq<char> {
    "command: "@ + input + ", is being processed..."@
}

/// The message for the line `input` that is no command.
pub open spec fn not_implemented_message(input: Seq<char>) -> Seq<char> {
    "command: "@ + input + ", is not implemented"@
}

/// The message for opening the card called `name` from the keyboard.
pub open spec fn selected_message(name: Seq<char>) -> Seq<char> {
    "Selected card: "@ + name
}

/// The message for clicking the card called `name`.
pub open spec fn clicked_message(name: Seq<char>) -> Seq<char> {
    "Clicked card: "@ + name
}

/// The card that `/add` makes: the parsed fields under a new identifier,
/// with no description and no address.
pub open spec fn new_card(
    id: u128,
    name: Seq<char>,
    tags: Seq<Seq<char>>,
    folders: Seq<Seq<char>>,
) -> CardView {
    CardView { id, name, description: Seq::empty(), url: Seq::empty(), tags, folders }
}

/// The card store with the cursor over it. The cursor, if there is one,
/// points at a card.
struct Deck {
    cards: Vec<Card>,
    selected_card: Option<usize>,
}

/// The application state.
pub struct Tronk {
    deck: Deck,
    undo_stack: Vec<Vec<Card>>,
    system_output_text: String,
    user_input_text: String,
    is_input_station_open: bool,
    detailed_card: Option<Card>,
}

/// The application state as plain values.
pub struct TronkView {
    /// The card store, in display order.
    pub cards: Seq<CardView>,
    /// The store as it was before each change, oldest first.
    pub undo_stack: Seq<Seq<CardView>>,
    /// The last message to the user.
    pub system_output_text: Seq<char>,
    /// The line being typed.
    pub user_input_text: Seq<char>,
    pub is_input_station_open: bool,
    /// The cursor: the index of the highlighted card.
    pub selected_card: Option<int>,
    /// The card shown in detail.
    pub detailed_card: Option<CardView>,
}

/// What became of a line of input.
#[derive(Debug, PartialEq, Eq)]
pub enum Outcome {
    /// A card was made; `id` is its identifier.
    Created { id: u128 },
    InvalidSyntax,
    EmptyName,
    EmptyPrompt,
    Unimplemented,
    /// The host is to run the inference collaborator on `prompt` and hand
    /// what it says to [`Tronk::finish_inference`].
    Infer { prompt: String },
}

impl TronkView {
    /// The cursor, if there is one, points at a card.
    pub open spec fn wf(self) -> bool {
        self.selected_card matches Some(i) ==> 0 <= i < self.cards.len()
    }

    /// Every entry of the undo stack is the store as it was when the entry
    /// was made: the first cards of the store as it is, one card fewer for
    /// each entry made since.
    pub open spec fn undo_matches_store(self) -> bool {
        &&& self.undo_stack.len() <= self.cards.len()
        &&& forall|k: int|
            0 <= k < self.undo_stack.len() ==> #[trigger] self.undo_stack[k] == self.cards.take(
                self.cards.len() - self.undo_stack.len() + k,
            )
    }

    /// The state at start-up over the store `cards`.
    pub open spec fn initial(cards: Seq<CardView>) -> TronkView {
        TronkView {
            cards,
            undo_stack: Seq::empty(),
            system_output_text: Seq::empty(),
            user_input_text: Seq::empty(),
            is_input_station_open: true,
            selected_card: None,
            detailed_card: None,
        }
    }

    /// The state after the line was answered with `message`: the line is
    /// gone, nothing else has changed.
    pub open spec fn answered(self, message: Seq<char>) -> TronkView {
        TronkView { system_output_text: message, user_input_text: Seq::empty(), ..self }
    }

    /// The state after `card` was added: the store as it was is on the undo
    /// stack, the card is last in the store, and the line is answered.
    pub open spec fn created(self, card: CardView) -> TronkView {
        TronkView {
            cards: self.cards.push(card),
            undo_stack: self.undo_stack.push(self.cards),
            ..self.answered(created_message(card.name))
        }
    }

    /// The state after the line in the input buffer was entered, where `id`
    /// is the identifier drawn for a new card.
    pub open spec fn entered(self, id: u128) -> TronkView {
        match command_of(self.user_input_text) {
            CommandView::Create { name, tags, folders } => self.created(
                new_card(id, name, tags, folders),
            ),
            CommandView::InvalidSyntax => self.answered(invalid_format_message()),
            CommandView::EmptyName => self.answered(empty_name_message()),
            CommandView::EmptyPrompt => self.answered(no_prompt_message()),
            CommandView::Infer { prompt } => self.answered(
                processing_message(trimmed(self.user_input_text)),
            ),
            CommandView::Unimplemented { input } => self.answered(not_implemented_message(input)),
        }
    }

    /// The state after the card under the cursor was opened.
    pub open spec fn opened(self, index: int) -> TronkView {
        TronkView {
            detailed_card: Some(self.cards[index]),
            system_output_text: selected_message(self.cards[index].name),
            ..self
        }
    }

    /// The state after the card at `index` was clicked.
    pub open spec fn clicked(self, index: int) -> TronkView {
        TronkView {
            detailed_card: Some(self.cards[index]),
            system_output_text: clicked_message(self.cards[index].name),
            ..self
        }
    }

    /// The state after one frame's key press, in a grid `columns` wide.
    pub open spec fn navigated(self, signal: Option<Signal>, columns: int) -> TronkView {
        if self.selected_card is Some && signal == Some(Signal::Open) {
            self.opened(self.selected_card->0)
        } else {
            TronkView {
                selected_card: cursor_after(
                    self.selected_card,
                    signal,
                    self.cards.len() as int,
                    columns,
                ),
                ..self
            }
        }
    }
}

/// An [`Outcome`] as plain values.
pub enum OutcomeView {
    Created { id: u128 },
    InvalidSyntax,
    EmptyName,
    EmptyPrompt,
    Unimplemented,
    Infer { prompt: Seq<char> },
}

impl View for Outcome {
    type V = OutcomeView;

    open spec fn view(&self) -> OutcomeView {
        match self {
            Outcome::Created { id } => OutcomeView::Created { id: *id },
            Outcome::InvalidSyntax => OutcomeView::InvalidSyntax,
            Outcome::EmptyName => OutcomeView::EmptyName,
            Outcome::EmptyPrompt => OutcomeView::EmptyPrompt,
            Outcome::Unimplemented => OutcomeView::Unimplemented,
            Outcome::Infer { prompt } => OutcomeView::Infer { prompt: prompt@ },
        }
    }
}

impl OutcomeView {
    /// The outcome that goes with a command, where `id` is the identifier
    /// drawn for a new card.
    pub open spec fn of(command: CommandView, id: u128) -> OutcomeView {
        match command {
            CommandView::Create { .. } => OutcomeView::Created { id },
            CommandView::InvalidSyntax => OutcomeView::InvalidSyntax,
            CommandView::EmptyName => OutcomeView::EmptyName,
            CommandView::EmptyPrompt => OutcomeView::EmptyPrompt,
            CommandView::Infer { prompt } => OutcomeView::Infer { prompt },
            CommandView::Unimplemented { .. } => OutcomeView::Unimplemented,
        }
    }

    /// The identifier of the card that was made; any number otherwise.
    pub open spec fn id(self) -> u128 {
        match self {
            OutcomeView::Created { id } => id,
            _ => 0,
        }
    }
}

impl View for Tronk {
    type V = TronkView;

    closed spec fn view(&self) -> TronkView {
        TronkView {
            cards: self.deck.cards.deep_view(),
            undo_stack: self.undo_stack.deep_view(),
            system_output_text: self.system_output_text@,
            user_input_text: self.user_input_text@,
            is_input_station_open: self.is_input_station_open,
            selected_card: self.deck.cursor(),
            detailed_card: match self.detailed_card {
                Some(c) => Some(c@),
                None => None,
            },
        }
    }
}

impl Deck {
    #[verifier::type_invariant]
    spec fn cursor_in_store(&self) -> bool {
        self.selected_card matches Some(i) ==> i < self.cards.len()
    }

    spec fn cursor(&self) -> Option<int> {
        match self.selected_card {
            Some(i) => Some(i as int),
            None => None,
        }
    }

    /// Puts `card` at the end of the store and hands back the store as it
    /// was. The store is replaced as a whole, so that the cursor points
    /// into it at every moment.
    fn push(&mut self, card: Card) -> (before: Vec<Card>)
        ensures
            final(self).cards.deep_view() == old(self).cards.deep_view().push(card@),
            final(self).selected_card == old(self).selected_card,
            before.deep_view() == old(self).cards.deep_view(),
    {
        proof {
            use_type_invariant(&*self);
        }
        let mut cards = clone_cards(&self.cards);
        cards.push(card);
        assert(cards.deep_view() =~= self.cards.deep_view().push(card@));
        core::mem::swap(&mut self.cards, &mut cards);
        cards
    }

    /// Serves one frame's key press in a grid `columns` wide, and says
    /// whether the card under the cursor is to be opened.
    fn step(&mut self, signal: Option<Signal>, columns: usize) -> (open: bool)
        ensures
            final(self).cards == old(self).cards,
            open == (old(self).selected_card is Some && signal == Some(Signal::Open)),
            final(self).cursor() == cursor_after(
                old(self).cursor(),
                signal,
                old(self).cards.len() as int,
                columns as int,
            ),
    {
        proof {
            use_type_invariant(&*self);
        }
        match self.selected_card {
            Some(index) => match signal {
                Some(Signal::Open) => true,
                Some(s) => {
                    self.selected_card = Some(move_cursor(index, s, self.cards.len(), columns));
                    false
                },
                None => false,
            },
            None => {
                if self.cards.len() > 0 {
                    self.selected_card = Some(0);
                }
                false
            },
        }
    }

    /// The card under the cursor.
    fn current(&self) -> (card: Option<&Card>)
        ensures
            match card {
                Some(c) => self.cursor() matches Some(i) && 0 <= i < self.cards.len() && *c
                    == self.cards[i],
                None => self.cursor() is None,
            },
    {
        proof {
            use_type_invariant(self);
        }
        match self.selected_card {
            Some(index) => Some(&self.cards[index]),
            None => None,
        }
    }
}

impl Tronk {
    /// Starts over the cards that were loaded, or over an empty store if
    /// there was nothing to load. The input station is open.
    pub fn new(loaded: Option<Vec<Card>>) -> (t: Tronk)
        ensures
            t@ == TronkView::initial(
                match loaded {
                    Some(cards) => cards.deep_view(),
                    None => Seq::empty(),
                },
            ),
            t@.wf(),
            t@.undo_matches_store(),
    {
        let cards = match loaded {
            Some(cards) => cards,
            None => {
                let v: Vec<Card> = Vec::new();
                assert(v.deep_view() =~= Seq::<CardView>::empty());
                v
            },
        };
        let t = Tronk {
            deck: Deck { cards, selected_card: None },
            undo_stack: Vec::new(),
            system_output_text: String::new(),
            user_input_text: String::new(),
            is_input_station_open: true,
            detailed_card: None,
        };
        assert(t.undo_stack.deep_view() =~= Seq::<Seq<CardView>>::empty());
        t
    }

    /// The card store.
    pub fn cards(&self) -> (cards: &Vec<Card>)
        ensures
            cards.deep_view() == self@.cards,
    {
        &self.deck.cards
    }

    /// The store as it was before each change, oldest first.
    pub fn undo_stack(&self) -> (stack: &Vec<Vec<Card>>)
        ensures
            stack.deep_view() == self@.undo_stack,
    {
        &self.undo_stack
    }

    /// The last message to the user.
    pub fn system_output_text(&self) -> (text: &str)
        ensures
            text@ == self@.system_output_text,
    {
        self.system_output_text.as_str()
    }

    /// The line being typed.
    pub fn user_input_text(&self) -> (text: &str)
        ensures
            text@ == self@.user_input_text,
    {
        self.user_input_text.as_str()
    }

    /// Replaces the line being typed.
    pub fn set_user_input_text(&mut self, text: String)
        ensures
            final(self)@ == (TronkView { user_input_text: text@, ..old(self)@ }),
            final(self)@.wf(),
    {
        self.user_input_text = text;
        proof {
            use_type_invariant(&self.deck);
        }
    }

    /// Whether the input station is open.
    pub fn is_input_station_open(&self) -> (open: bool)
        ensures
            open == self@.is_input_station_open,
    {
        self.is_input_station_open
    }

    /// Opens the input station.
    pub fn open_input_station(&mut self)
        ensures
            final(self)@ == (TronkView { is_input_station_open: true, ..old(self)@ }),
            final(self)@.wf(),
    {
        self.is_input_station_open = true;
        proof {
            use_type_invariant(&self.deck);
        }
    }

    /// The cursor. It points at a card of the store.
    pub fn selected_card(&self) -> (cursor: Option<usize>)
        ensures
            self@.selected_card == match cursor {
                Some(i) => Some(i as int),
                None => None,
            },
            cursor matches Some(i) ==> i < self@.cards.len(),
    {
        proof {
            use_type_invariant(&self.deck);
        }
        self.deck.selected_card
    }

    /// The card shown in detail.
    pub fn detailed_card(&self) -> (card: Option<&Card>)
        ensures
            self@.detailed_card == match card {
                Some(c) => Some(c@),
                None => None,
            },
    {
        self.detailed_card.as_ref()
    }

    /// Closes the detail view.
    pub fn close_details(&mut self)
        ensures
            final(self)@ == (TronkView { detailed_card: None, ..old(self)@ }),
            final(self)@.wf(),
    {
        self.detailed_card = None;
        proof {
            use_type_invariant(&self.deck);
        }
    }

    /// Enters the line in the input buffer.
    ///
    /// The line is read as [`command_of`] says and the state becomes what
    /// [`TronkView::entered`] gives. A new card gets a random identifier,
    /// which the outcome reports. The store and the undo stack only grow,
    /// and a line that is neither `/add` nor `/ollama` changes neither.
    pub fn process_input(&mut self) -> (outcome: Outcome)
        ensures
            outcome@ == OutcomeView::of(command_of(old(self)@.user_input_text), outcome@.id()),
            outcome@ is Created ==> is_random_id(outcome@.id()),
            final(self)@ == old(self)@.entered(outcome@.id()),
            final(self)@.wf(),
            final(self)@.user_input_text.len() == 0,
            old(self)@.cards.is_prefix_of(final(self)@.cards),
            old(self)@.undo_stack.is_prefix_of(final(self)@.undo_stack),
            old(self)@.undo_matches_store() ==> final(self)@.undo_matches_store(),
            !add_word().is_prefix_of(trimmed(old(self)@.user_input_text)) && !ollama_word().is_prefix_of(
                trimmed(old(self)@.user_input_text),
            ) ==> {
                &&& outcome@ is Unimplemented
                &&& final(self)@.cards == old(self)@.cards
                &&& final(self)@.undo_stack == old(self)@.undo_stack
                &&& final(self)@.system_output_text == not_implemented_message(
                    trimmed(old(self)@.user_input_text),
                )
            },
    {
        let command = parse_command(self.user_input_text.as_str());
        let outcome = match command {
            Command::Create { name, tags, folders } => {
                let mut card = Card::default();
                self.system_output_text = join2("card created with name: ", name.as_str());
                card.name = name;
                card.tags = tags;
                card.folders = folders;
                let id = card.id;
                let ghost stack = self.undo_stack.deep_view();
                let before = self.deck.push(card);
                self.undo_stack.push(before);
                assert(self.undo_stack.deep_view() =~= stack.push(before.deep_view()));
                Outcome::Created { id }
            },
            Command::InvalidSyntax => {
                self.system_output_text = String::from_str(
                    "invalid card format. try: '/add cardname #tag1,tag2 @folder1,folder2'",
                );
                Outcome::InvalidSyntax
            },
            Command::EmptyName => {
                self.system_output_text = String::from_str("card name cannot be empty");
                Outcome::EmptyName
            },
            Command::EmptyPrompt => {
                self.system_output_text = String::from_str("no prompt provided");
                Outcome::EmptyPrompt
            },
            Command::Infer { prompt } => {
                let input = trim(self.user_input_text.as_str());
                self.system_output_text = join3("command: ", input, ", is being processed...");
                Outcome::Infer { prompt }
            },
            Command::Unimplemented { input } => {
                self.system_output_text = join3("command: ", input.as_str(), ", is not implemented");
                Outcome::Unimplemented
            },
        };
        self.user_input_text = String::new();
        proof {
            use_type_invariant(&self.deck);
            if old(self)@.undo_matches_store() {
                lemma_entering_keeps_undo_matching(old(self)@, outcome@.id());
            }
        }
        outcome
    }
}

/// A line that begins with neither `/add` nor `/ollama`, as it stands and
/// once trimmed, leaves the store and the undo stack as they were and is
/// answered with the "not implemented" message. The message quotes the
/// trimmed line behind its opening words; that is the line itself where it
/// has no white space at either end.
pub proof fn lemma_unknown_line_changes_no_card(pre: TronkView, id: u128)
    requires
        !add_word().is_prefix_of(pre.user_input_text),
        !ollama_word().is_prefix_of(pre.user_input_text),
        !add_word().is_prefix_of(trimmed(pre.user_input_text)),
        !ollama_word().is_prefix_of(trimmed(pre.user_input_text)),
    ensures
        pre.entered(id).cards == pre.cards,
        pre.entered(id).undo_stack == pre.undo_stack,
        pre.entered(id).system_output_text == not_implemented_message(
            trimmed(pre.user_input_text),
        ),
        pre.entered(id).system_output_text.subrange(
            "command: "@.len() as int,
            ("command: "@.len() + trimmed(pre.user_input_text).len()) as int,
        ) == trimmed(pre.user_input_text),
        pre.user_input_text.len() == 0 || (!is_whitespace(pre.user_input_text.first())
            && !is_whitespace(pre.user_input_text.last())) ==> pre.entered(id).system_output_text
            == not_implemented_message(pre.user_input_text),
{
    lemma_trimmed_is_idempotent(pre.user_input_text);
    let line = trimmed(pre.user_input_text);
    let message = not_implemented_message(line);
    let start = "command: "@.len() as int;
    assert(message.subrange(start, start + line.len()) =~= line);
}

/// Entering a line only ever adds to the store and to the undo stack: what
/// was there stays, in its order. A line that does not make a card adds
/// nothing, and one that does adds the card to the store and the store as
/// it was to the undo stack.
pub proof fn lemma_entering_appends(pre: TronkView, id: u128)
    ensures
        pre.cards.is_prefix_of(pre.entered(id).cards),
        pre.undo_stack.is_prefix_of(pre.entered(id).undo_stack),
        command_of(pre.user_input_text) is Create ==> {
            &&& pre.entered(id).cards.len() == pre.cards.len() + 1
            &&& pre.entered(id).cards.last().id == id
            &&& pre.entered(id).undo_stack == pre.undo_stack.push(pre.cards)
        },
        !(command_of(pre.user_input_text) is Create) ==> {
            &&& pre.entered(id).cards == pre.cards
            &&& pre.entered(id).undo_stack == pre.undo_stack
        },
        pre.entered(id).user_input_text.len() == 0,
        pre.entered(id).selected_card == pre.selected_card,
        pre.wf() ==> pre.entered(id).wf(),
{
}

/// The undo stack matches the store at start-up.
pub proof fn lemma_initial_undo_matches_store(cards: Seq<CardView>)
    ensures
        TronkView::initial(cards).undo_matches_store(),
{
}

/// Entering a line keeps the undo stack matching the store: going back to
/// any entry would take away exactly the cards made since.
pub proof fn lemma_entering_keeps_undo_matching(pre: TronkView, id: u128)
    requires
        pre.undo_matches_store(),
    ensures
        pre.entered(id).undo_matches_store(),
{
    let post = pre.entered(id);
    if command_of(pre.user_input_text) is Create {
        let n = pre.cards.len() as int;
        let u = pre.undo_stack.len() as int;
        assert forall|k: int| 0 <= k < post.undo_stack.len() implies #[trigger] post.undo_stack[k]
            == post.cards.take(post.cards.len() - post.undo_stack.len() + k) by {
            if k < u {
                assert(post.undo_stack[k] == pre.undo_stack[k]);
                assert(pre.cards.take(n - u + k) =~= post.cards.take(n - u + k));
            } else {
                assert(post.undo_stack[k] == pre.cards);
                assert(pre.cards =~= post.cards.take(n));
            }
        }
    }
}

/// No line is answered with the message for a card without a name.
pub proof fn lemma_entered_line_names_its_card(pre: TronkView, id: u128)
    ensures
        !(command_of(pre.user_input_text) is EmptyName),
{
    lemma_line_names_its_card(pre.user_input_text);
}

/// Navigating keeps the cursor on a card, and touches neither the store nor
/// the undo stack nor the line being typed.
pub proof fn lemma_navigating_keeps_cursor_in_store(
    pre: TronkView,
    signal: Option<Signal>,
    columns: int,
)
    requires
        pre.wf(),
        0 <= columns,
    ensures
        pre.navigated(signal, columns).wf(),
        pre.navigated(signal, columns).cards == pre.cards,
        pre.navigated(signal, columns).undo_stack == pre.undo_stack,
        pre.navigated(signal, columns).user_input_text == pre.user_input_text,
        pre.cards.len() > 0 ==> pre.navigated(signal, columns).selected_card is Some,
{
}

impl Tronk {
    /// Serves one frame of the grid, `columns` cards wide.
    ///
    /// A cursor that exists moves by `signal`, or opens the card under it;
    /// a missing cursor is put on the first card, if there is one, and the
    /// signal is dropped. The store is not touched.
    pub fn navigate(&mut self, signal: Option<Signal>, columns: usize)
        ensures
            final(self)@ == old(self)@.navigated(signal, columns as int),
            final(self)@.wf(),
            final(self)@.cards == old(self)@.cards,
            final(self)@.undo_stack == old(self)@.undo_stack,
    {
        let open = self.deck.step(signal, columns);
        if open {
            match self.deck.current() {
                Some(card) => {
                    let card = card.clone();
                    self.system_output_text = join2("Selected card: ", card.name.as_str());
                    self.detailed_card = Some(card);
                },
                None => {},
            }
        }
        proof {
            use_type_invariant(&self.deck);
        }
    }

    /// Opens the card at `index` on a click. An index outside the store
    /// changes nothing; the result says whether a card was hit.
    pub fn click_card(&mut self, index: usize) -> (hit: bool)
        ensures
            hit == (index < old(self)@.cards.len()),
            final(self)@ == if hit {
                old(self)@.clicked(index as int)
            } else {
                old(self)@
            },
            final(self)@.wf(),
    {
        proof {
            use_type_invariant(&self.deck);
        }
        if index < self.deck.cards.len() {
            let card = self.deck.cards[index].clone();
            self.system_output_text = join2("Clicked card: ", card.name.as_str());
            self.detailed_card = Some(card);
            true
        } else {
            false
        }
    }

    /// Takes the answer of the inference collaborator: it becomes the
    /// message, and nothing else changes.
    pub fn finish_inference(&mut self, success: bool, stdout: &[u8], stderr: &[u8])
        ensures
            final(self)@ == (TronkView {
                system_output_text: reply_text(success, stdout@, stderr@),
                ..old(self)@
            }),
            final(self)@.wf(),
    {
        self.system_output_text = inference_reply(success, stdout, stderr);
        proof {
            use_type_invariant(&self.deck);
        }
    }
}

/// Writes two texts one after the other.
fn join2(a: &str, b: &str) -> (s: String)
    ensures
        s@ == a@ + b@,
{
    let mut s = String::from_str(a);
    s.append(b);
    s
}

/// Writes three texts one after the other.
fn join3(a: &str, b: &str, c: &str) -> (s: String)
    ensures
        s@ == a@ + b@ + c@,
{
    let mut s = String::from_str(a);
    s.append(b);
    s.append(c);
    s
}

} // verus!
