//! The editor of content that the user may edit.
use crate::script::textinput::{
    constrained, content_of, lines_of, offset_of, InputType, IsComposing, KeyReaction, Lines,
    SelectionDirection, SelectionState, TextInput, TextInputModel, TextPoint, UTF8Bytes,
};
use vstd::prelude::*;

verus! {

/// What an event did to the content. It is up to the caller to change the document, to fire
/// events and to have the content painted again.
#[derive(Debug)]
pub enum EditorMutation {
    /// The text changed. Where `text` is missing, the whole text is in the editor.
    Input { text: Option<String>, is_composing: IsComposing, input_type: InputType },
    /// Only the selection or the caret moved.
    RedrawSelection,
}

/// The way to the system's clipboard: the view that asks for it.
#[derive(Clone, Copy, Debug, PartialEq, Eq, Structural)]
pub struct EmbedderClipboardProvider {
    pub webview: u64,
}

/// What a reaction to a key means for the content.
pub open spec fn mutation_of(reaction: KeyReaction) -> Option<EditorMutation> {
    match reaction {
        KeyReaction::TriggerDefaultAction => None,
        KeyReaction::Nothing => None,
        KeyReaction::RedrawSelection => Some(EditorMutation::RedrawSelection),
        KeyReaction::DispatchInput(text, is_composing, input_type) => Some(
            EditorMutation::Input { text, is_composing, input_type },
        ),
    }
}

/// The editor.
pub struct Editor {
    text_input: TextInput,
    clipboard: EmbedderClipboardProvider,
}

/// What an `Editor` stands for.
pub struct EditorModel {
    pub text_input: TextInputModel,
    pub clipboard: EmbedderClipboardProvider,
}

impl EditorModel {
    /// There can be any number of lines and any amount of text, and the caret and the selection
    /// are in the text.
    pub open spec fn valid(self) -> bool {
        &&& self.text_input.valid()
        &&& self.text_input.multiline == Lines::Multiple
        &&& self.text_input.max_length is None
        &&& self.text_input.min_length is None
    }
}

impl View for Editor {
    type V = EditorModel;

    closed spec fn view(&self) -> EditorModel {
        EditorModel { text_input: self.text_input@, clipboard: self.clipboard }
    }
}

impl Editor {
    /// An empty editor of any number of lines, with no limit on how long its text is.
    pub fn new(clipboard: EmbedderClipboardProvider) -> (r: Self)
        ensures
            r@.valid(),
            r@.clipboard == clipboard,
            r@.text_input == (TextInputModel {
                lines: seq![""@],
                edit_point: TextPoint { line: 0, index: UTF8Bytes(0) },
                selection_origin: None,
                selection_direction: SelectionDirection::Undirected,
                multiline: Lines::Multiple,
                max_length: None,
                min_length: None,
            }),
    {
        let r = Editor {
            text_input: TextInput::new(
                Lines::Multiple,
                "",
                None,
                None,
                SelectionDirection::Undirected,
            ),
            clipboard,
        };
        proof {
            reveal_strlit("");
        }
        assert(r@.text_input.lines =~= seq![""@]);
        r
    }

    /// Takes note of what a key did: what the text is like afterwards, and how it reacted. Tells
    /// whether the content changed, and how. A key changes neither how many lines nor how much
    /// text there can be, and where only the selection is to be painted again, it left the text
    /// alone.
    pub fn handle_keydown(&mut self, text_input: TextInput, reaction: KeyReaction) -> (r: (
        bool,
        Option<EditorMutation>,
    ))
        requires
            old(self)@.valid(),
            text_input@.valid(),
            text_input@.multiline == old(self)@.text_input.multiline,
            text_input@.max_length == old(self)@.text_input.max_length,
            text_input@.min_length == old(self)@.text_input.min_length,
            reaction is RedrawSelection ==> text_input@.lines == old(self)@.text_input.lines,
        ensures
            final(self)@ == (EditorModel {
                text_input: text_input@,
                clipboard: old(self)@.clipboard,
            }),
            final(self)@.valid(),
            r.1 == mutation_of(reaction),
            r.0 == (r.1 is Some),
            r.1 == Some(EditorMutation::RedrawSelection) ==> final(self)@.text_input.content()
                == old(self)@.text_input.content(),
    {
        self.text_input = text_input;
        let mutation = match reaction {
            KeyReaction::TriggerDefaultAction => None,
            KeyReaction::Nothing => None,
            KeyReaction::RedrawSelection => Some(EditorMutation::RedrawSelection),
            KeyReaction::DispatchInput(text, is_composing, input_type) => Some(
                EditorMutation::Input { text, is_composing, input_type },
            ),
        };
        (mutation.is_some(), mutation)
    }

    /// The selection, or the caret where nothing is selected, for layout to paint.
    pub fn selection_state(&self) -> (r: SelectionState)
        ensures
            r == (SelectionState {
                start: self@.text_input.selection_start(),
                end: self@.text_input.selection_end(),
                direction: self@.text_input.selection_direction,
            }),
    {
        self.text_input.selection_state()
    }

    /// How many bytes come before the selection and before its end. Where nothing is selected,
    /// both are how many come before the caret.
    pub fn sorted_selection_offsets_range(&self) -> (r: std::ops::Range<UTF8Bytes>)
        requires
            self@.valid(),
        ensures
            r.start.0 == offset_of(self@.text_input.selection_start(), self@.text_input.lines),
            r.end.0 == offset_of(self@.text_input.selection_end(), self@.text_input.lines),
            r.start.0 <= r.end.0,
            self@.text_input.selection_origin is None ==> r.start == r.end && r.start.0
                == offset_of(self@.text_input.edit_point, self@.text_input.lines),
    {
        self.text_input.sorted_selection_offsets_range()
    }

    /// The text.
    pub fn text_content(&self) -> (r: String)
        ensures
            r@ == self@.text_input.content(),
    {
        self.text_input.get_content()
    }

    /// Takes on another text.
    pub fn set_text_content(&mut self, text: &str)
        requires
            old(self)@.valid(),
        ensures
            final(self)@ == (EditorModel {
                text_input: old(self)@.text_input.with_content(text@),
                clipboard: old(self)@.clipboard,
            }),
            final(self)@.valid(),
    {
        self.text_input.set_content(text);
    }
}

/// A text that an editor takes on is the one that it gives back, but for line
/// ends, each of which becomes a line feed. The caret and the selection move only where the text
/// does not reach.
pub proof fn law_set_then_get(editor: EditorModel, text: Seq<char>)
    requires
        editor.valid(),
    ensures
        ({
            let after = editor.text_input.with_content(text);
            &&& after.content() == content_of(lines_of(text))
            &&& !text.contains('\r') ==> after.content() == text
            &&& after.edit_point == constrained(editor.text_input.edit_point, lines_of(text))
        }),
{
    if !text.contains('\r') {
        crate::script::textinput::law_text_is_kept(text);
    }
}

/// What a key did to the content is told by how the text reacted: that only the selection moved, what
/// was put in, whether it is being composed and what kind of change it is, or that nothing changed.
pub proof fn law_reactions_become_these_mutations(
    text: Option<String>,
    is_composing: IsComposing,
    input_type: InputType,
)
    ensures
        mutation_of(KeyReaction::TriggerDefaultAction) is None,
        mutation_of(KeyReaction::Nothing) is None,
        mutation_of(KeyReaction::RedrawSelection) == Some(EditorMutation::RedrawSelection),
        mutation_of(KeyReaction::DispatchInput(text, is_composing, input_type)) == Some(
            EditorMutation::Input { text, is_composing, input_type },
        ),
{
}

} // verus!
