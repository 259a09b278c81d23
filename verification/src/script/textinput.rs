//! Editable text: its lines, the caret and the selection.
use crate::text::texts;
use vstd::prelude::*;
use vstd::utf8::{encode_utf8, is_ascii_chars_encode_utf8};

verus! {

/// A number of bytes of UTF-8.
#[derive(Clone, Copy, Debug, PartialEq, Eq, Structural)]
pub struct UTF8Bytes(pub usize);

/// Whether there can be more than one line.
#[derive(Clone, Copy, Debug, PartialEq, Eq, Structural)]
pub enum Lines {
    Single,
    Multiple,
}

/// In which direction the selection was made.
#[derive(Clone, Copy, Debug, PartialEq, Eq, Structural)]
pub enum SelectionDirection {
    Forward,
    Backward,
    /// In none.
    Undirected,
}

/// A place in the text: a line, and how many bytes into it.
#[derive(Clone, Copy, Debug, PartialEq, Eq, Structural)]
pub struct TextPoint {
    pub line: usize,
    pub index: UTF8Bytes,
}

/// Where the selection starts and ends.
#[derive(Clone, Copy, Debug, PartialEq, Eq, Structural)]
pub struct SelectionState {
    pub start: TextPoint,
    pub end: TextPoint,
    pub direction: SelectionDirection,
}

/// Whether a text is being composed with an input method.
#[derive(Clone, Copy, Debug, PartialEq, Eq, Structural)]
pub enum IsComposing {
    Composing,
    NotComposing,
}

/// What kind of change the user made.
#[derive(Clone, Copy, Debug, PartialEq, Eq, Structural)]
pub enum InputType {
    InsertText,
    InsertLineBreak,
    InsertFromPaste,
    InsertCompositionText,
    DeleteByCut,
    DeleteContentBackward,
    DeleteContentForward,
    Nothing,
}

/// What a key did to the text.
#[derive(Debug)]
pub enum KeyReaction {
    TriggerDefaultAction,
    DispatchInput(Option<String>, IsComposing, InputType),
    RedrawSelection,
    Nothing,
}

/// How many bytes of UTF-8 a text takes.
pub open spec fn utf8_len(text: Seq<char>) -> nat {
    encode_utf8(text).len()
}

/// Whether a character ends a line.
pub open spec fn ends_line(c: char) -> bool {
    c == '\n' || c == '\r'
}

/// Where the first line of a text ends.
pub open spec fn first_break(text: Seq<char>) -> nat
    decreases text.len(),
{
    if text.len() == 0 || ends_line(text[0]) {
        0
    } else {
        1 + first_break(text.skip(1))
    }
}

/// How many characters end the line at `at`: a carriage return and a line feed do so together.
pub open spec fn break_len(text: Seq<char>, at: int) -> int {
    if text[at] == '\r' && at + 1 < text.len() && text[at + 1] == '\n' {
        2
    } else {
        1
    }
}

/// The lines of a text.
pub open spec fn lines_of(text: Seq<char>) -> Seq<Seq<char>>
    decreases text.len(),
{
    let end = first_break(text) as int;
    if end >= text.len() {
        seq![text]
    } else {
        seq![text.take(end)] + lines_of(text.skip(end + break_len(text, end)))
    }
}

/// The text that lines make, with a line feed between them.
pub open spec fn content_of(lines: Seq<Seq<char>>) -> Seq<char>
    decreases lines.len(),
{
    if lines.len() == 0 {
        Seq::empty()
    } else if lines.len() == 1 {
        lines[0]
    } else {
        content_of(lines.drop_last()) + "\n"@ + lines.last()
    }
}

/// How many bytes come before a line, those between the lines among them.
pub open spec fn start_of(lines: Seq<Seq<char>>, line: int) -> nat
    decreases line,
{
    if line <= 0 {
        0
    } else {
        start_of(lines, line - 1) + utf8_len(lines[line - 1]) + 1
    }
}

/// Whether there is such a place in the text.
pub open spec fn is_in(point: TextPoint, lines: Seq<Seq<char>>) -> bool {
    point.line < lines.len() && point.index.0 <= utf8_len(lines[point.line as int])
}

/// Whether a place is not behind another one.
pub open spec fn is_not_behind(a: TextPoint, b: TextPoint) -> bool {
    a.line < b.line || (a.line == b.line && a.index.0 <= b.index.0)
}

/// The place in the text that is nearest to a point: in the same line, or at the end of the text
/// where there is no such line.
pub open spec fn constrained(point: TextPoint, lines: Seq<Seq<char>>) -> TextPoint {
    if point.line < lines.len() {
        let len = utf8_len(lines[point.line as int]);
        if point.index.0 <= len {
            point
        } else {
            TextPoint { line: point.line, index: UTF8Bytes(len as usize) }
        }
    } else {
        TextPoint {
            line: (lines.len() - 1) as usize,
            index: UTF8Bytes(utf8_len(lines.last()) as usize),
        }
    }
}

/// How many bytes come before a place.
pub open spec fn offset_of(point: TextPoint, lines: Seq<Seq<char>>) -> nat {
    start_of(lines, point.line as int) + point.index.0 as nat
}

proof fn lemma_first_break(text: Seq<char>)
    ensures
        first_break(text) <= text.len(),
        forall|i: int| 0 <= i < first_break(text) ==> !ends_line(#[trigger] text[i]),
        first_break(text) < text.len() ==> ends_line(text[first_break(text) as int]),
    decreases text.len(),
{
    if text.len() > 0 && !ends_line(text[0]) {
        let rest = text.skip(1);
        lemma_first_break(rest);
        assert forall|i: int| 0 <= i < first_break(text) implies !ends_line(
            #[trigger] text[i],
        ) by {
            if i > 0 {
                assert(text[i] == rest[i - 1]);
            }
        }
        if first_break(text) < text.len() {
            assert(text[first_break(text) as int] == rest[first_break(rest) as int]);
        }
    }
}

proof fn lemma_first_break_is(text: Seq<char>, at: int)
    requires
        0 <= at <= text.len(),
        forall|i: int| 0 <= i < at ==> !ends_line(#[trigger] text[i]),
        at < text.len() ==> ends_line(text[at]),
    ensures
        first_break(text) == at,
{
    lemma_first_break(text);
    if first_break(text) < at {
        assert(ends_line(text[first_break(text) as int]));
    } else if at < first_break(text) {
        assert(!ends_line(text[at]));
    }
}

proof fn lemma_lines_exist(text: Seq<char>)
    ensures
        lines_of(text).len() > 0,
    decreases text.len(),
{
    lemma_first_break(text);
    let end = first_break(text) as int;
    if end < text.len() {
        lemma_lines_exist(text.skip(end + break_len(text, end)));
    }
}

proof fn lemma_utf8_concat(a: Seq<char>, b: Seq<char>)
    ensures
        utf8_len(a + b) == utf8_len(a) + utf8_len(b),
    decreases a.len(),
{
    if a.len() == 0 {
        assert(a + b =~= b);
    } else {
        lemma_utf8_concat(a.drop_first(), b);
        assert((a + b).drop_first() =~= a.drop_first() + b);
    }
}

proof fn lemma_utf8_at_least(text: Seq<char>)
    ensures
        utf8_len(text) >= text.len(),
    decreases text.len(),
{
    if text.len() > 0 {
        lemma_utf8_at_least(text.drop_first());
    }
}

proof fn lemma_start_of_rest(first: Seq<char>, rest: Seq<Seq<char>>, line: int)
    requires
        0 <= line <= rest.len(),
    ensures
        start_of(seq![first] + rest, line + 1) == utf8_len(first) + 1 + start_of(rest, line),
    decreases line,
{
    let all = seq![first] + rest;
    assert(all[line] == if line == 0 {
        first
    } else {
        rest[line - 1]
    });
    if line > 0 {
        lemma_start_of_rest(first, rest, line - 1);
    } else {
        assert(start_of(all, 0) == 0);
        assert(start_of(all, 1) == start_of(all, 0) + utf8_len(all[0]) + 1);
    }
}

/// The lines of a text take no more bytes than the text.
proof fn lemma_lines_fit(text: Seq<char>)
    ensures
        start_of(lines_of(text), lines_of(text).len() as int) <= utf8_len(text) + 1,
    decreases text.len(),
{
    lemma_first_break(text);
    let end = first_break(text) as int;
    let lines = lines_of(text);
    if end >= text.len() {
        assert(start_of(lines, 0) == 0);
        assert(start_of(lines, 1) == start_of(lines, 0) + utf8_len(lines[0]) + 1);
    } else {
        let n = break_len(text, end);
        let rest = text.skip(end + n);
        lemma_lines_fit(rest);
        lemma_start_of_rest(text.take(end), lines_of(rest), lines_of(rest).len() as int);
        let gap = text.subrange(end, end + n);
        assert(text =~= text.take(end) + (gap + rest));
        lemma_utf8_concat(text.take(end), gap + rest);
        lemma_utf8_concat(gap, rest);
        lemma_utf8_at_least(gap);
    }
}

/// Editable text.
pub struct TextInput {
    pub lines: Vec<String>,
    /// Where the caret is.
    pub edit_point: TextPoint,
    /// Where the selection was begun, if there is one.
    pub selection_origin: Option<TextPoint>,
    pub selection_direction: SelectionDirection,
    pub multiline: Lines,
    pub max_length: Option<usize>,
    pub min_length: Option<usize>,
}

/// What a `TextInput` stands for.
pub struct TextInputModel {
    pub lines: Seq<Seq<char>>,
    pub edit_point: TextPoint,
    pub selection_origin: Option<TextPoint>,
    pub selection_direction: SelectionDirection,
    pub multiline: Lines,
    pub max_length: Option<usize>,
    pub min_length: Option<usize>,
}

impl View for TextInput {
    type V = TextInputModel;

    open spec fn view(&self) -> TextInputModel {
        TextInputModel {
            lines: texts(self.lines@),
            edit_point: self.edit_point,
            selection_origin: self.selection_origin,
            selection_direction: self.selection_direction,
            multiline: self.multiline,
            max_length: self.max_length,
            min_length: self.min_length,
        }
    }
}

impl TextInputModel {
    /// Where the selection was begun, or the caret where there is none.
    pub open spec fn origin(self) -> TextPoint {
        match self.selection_origin {
            Some(origin) => origin,
            None => self.edit_point,
        }
    }

    /// Where the selection starts.
    pub open spec fn selection_start(self) -> TextPoint {
        if self.selection_direction == SelectionDirection::Backward {
            self.edit_point
        } else {
            self.origin()
        }
    }

    /// Where the selection ends.
    pub open spec fn selection_end(self) -> TextPoint {
        if self.selection_direction == SelectionDirection::Backward {
            self.origin()
        } else {
            self.edit_point
        }
    }

    /// The caret and the selection are in the text, the selection does not end before it starts,
    /// and the bytes of the text can be counted.
    pub open spec fn valid(self) -> bool {
        &&& self.lines.len() > 0
        &&& start_of(self.lines, self.lines.len() as int) <= usize::MAX + 1
        &&& is_in(self.edit_point, self.lines)
        &&& is_in(self.origin(), self.lines)
        &&& is_not_behind(self.selection_start(), self.selection_end())
    }

    /// The text.
    pub open spec fn content(self) -> Seq<char> {
        content_of(self.lines)
    }

    /// With another text. Caret and selection stay where they are as far as the text allows it.
    pub open spec fn with_content(self, text: Seq<char>) -> TextInputModel {
        let lines = if self.multiline == Lines::Multiple {
            lines_of(text)
        } else {
            seq![text]
        };
        TextInputModel {
            lines,
            edit_point: constrained(self.edit_point, lines),
            selection_origin: match self.selection_origin {
                Some(origin) => Some(constrained(origin, lines)),
                None => None,
            },
            ..self
        }
    }
}

fn byte_len(text: &String) -> (r: usize)
    ensures
        r == utf8_len(text@),
{
    text.as_str().as_bytes().len()
}

fn constrain_to(point: TextPoint, lines: &Vec<String>) -> (r: TextPoint)
    requires
        lines@.len() > 0,
    ensures
        r == constrained(point, texts(lines@)),
        is_in(r, texts(lines@)),
{
    if point.line < lines.len() {
        let len: usize = byte_len(&lines[point.line]);
        if point.index.0 <= len {
            point
        } else {
            TextPoint { line: point.line, index: UTF8Bytes(len) }
        }
    } else {
        let last: usize = lines.len() - 1;
        assert(texts(lines@).last() == lines@[last as int]@);
        TextPoint { line: last, index: UTF8Bytes(byte_len(&lines[last])) }
    }
}

fn split_lines(text: &str) -> (r: Vec<String>)
    ensures
        texts(r@) == lines_of(text@),
{
    let n: usize = text.unicode_len();
    let mut lines: Vec<String> = Vec::new();
    let mut from: usize = 0;
    let mut at: usize = 0;
    assert(texts(lines@) + lines_of(text@.skip(0)) =~= lines_of(text@)) by {
        assert(text@.skip(0) =~= text@);
    }
    while at < n
        invariant
            from <= at <= n,
            n == text@.len(),
            forall|i: int| from <= i < at ==> !ends_line(#[trigger] text@[i]),
            texts(lines@) + lines_of(text@.skip(from as int)) == lines_of(text@),
        decreases n - at,
    {
        let c = text.get_char(at);
        if c == '\n' || c == '\r' {
            let ghost rest = text@.skip(from as int);
            let ghost before = texts(lines@);
            let line = text.substring_char(from, at);
            lines.push(line.to_owned());
            let next: usize = if c == '\r' && at + 1 < n && text.get_char(at + 1) == '\n' {
                at + 2
            } else {
                at + 1
            };
            proof {
                assert forall|i: int| 0 <= i < at - from implies !ends_line(#[trigger] rest[i]) by {
                    assert(rest[i] == text@[from + i]);
                }
                assert(rest[at - from] == text@[at as int]);
                lemma_first_break_is(rest, at - from);
                assert(break_len(rest, at - from) == next - at) by {
                    if at + 1 < n {
                        assert(rest[at - from + 1] == text@[at + 1]);
                    }
                }
                assert(line@ =~= rest.take(at - from));
                assert(rest.skip(next - from) =~= text@.skip(next as int));
                assert(texts(lines@) =~= before.push(line@));
                assert(texts(lines@) + lines_of(text@.skip(next as int)) =~= before + lines_of(
                    rest,
                ));
            }
            from = next;
            at = next;
        } else {
            at += 1;
        }
    }
    proof {
        let rest = text@.skip(from as int);
        assert forall|i: int| 0 <= i < rest.len() implies !ends_line(#[trigger] rest[i]) by {
            assert(rest[i] == text@[from + i]);
        }
        lemma_first_break_is(rest, rest.len() as int);
        assert(lines_of(rest) =~= seq![rest]);
    }
    let ghost before = texts(lines@);
    let last = text.substring_char(from, n);
    lines.push(last.to_owned());
    assert(last@ =~= text@.skip(from as int));
    assert(texts(lines@) =~= before + seq![text@.skip(from as int)]);
    lines
}

impl TextInput {
    /// Editable text with no selection and the caret at the start.
    pub fn new(
        lines: Lines,
        initial: &str,
        max_length: Option<usize>,
        min_length: Option<usize>,
        selection_direction: SelectionDirection,
    ) -> (r: Self)
        ensures
            r@.valid(),
            r@.lines == if lines == Lines::Multiple {
                lines_of(initial@)
            } else {
                seq![initial@]
            },
            r@.edit_point == (TextPoint { line: 0, index: UTF8Bytes(0) }),
            r@.selection_origin is None,
            r@.selection_direction == selection_direction,
            r@.multiline == lines,
            r@.max_length == max_length,
            r@.min_length == min_length,
    {
        let mut empty: Vec<String> = Vec::new();
        empty.push("".to_owned());
        let mut r = TextInput {
            lines: empty,
            edit_point: TextPoint { line: 0, index: UTF8Bytes(0) },
            selection_origin: None,
            selection_direction,
            multiline: lines,
            max_length,
            min_length,
        };
        r.set_content(initial);
        r
    }

    /// Takes on another text. Caret and selection stay where they are as far as the text allows
    /// it.
    pub fn set_content(&mut self, content: &str)
        requires
            is_not_behind(old(self)@.selection_start(), old(self)@.selection_end()),
        ensures
            final(self)@ == old(self)@.with_content(content@),
            final(self)@.valid(),
    {
        let size: usize = content.as_bytes().len();
        assert(size == utf8_len(content@));
        let lines: Vec<String> = match self.multiline {
            Lines::Multiple => {
                proof {
                    lemma_lines_exist(content@);
                    lemma_lines_fit(content@);
                }
                split_lines(content)
            },
            Lines::Single => {
                let mut only: Vec<String> = Vec::new();
                only.push(content.to_owned());
                assert(texts(only@) =~= seq![content@]);
                assert(start_of(seq![content@], 0) == 0);
                assert(start_of(seq![content@], 1) == start_of(seq![content@], 0) + utf8_len(
                    content@,
                ) + 1);
                only
            },
        };
        assert(texts(lines@).len() == lines@.len());
        self.edit_point = constrain_to(self.edit_point, &lines);
        self.selection_origin = match self.selection_origin {
            Some(origin) => Some(constrain_to(origin, &lines)),
            None => None,
        };
        self.lines = lines;
    }

    /// The text.
    pub fn get_content(&self) -> (r: String)
        ensures
            r@ == self@.content(),
    {
        let ghost all = self@.lines;
        let mut content: String = String::new();
        let mut i: usize = 0;
        assert(content@ =~= content_of(all.take(0)));
        while i < self.lines.len()
            invariant
                i <= self.lines@.len(),
                all == texts(self.lines@),
                content@ == content_of(all.take(i as int)),
            decreases self.lines@.len() - i,
        {
            let ghost before = content@;
            if i > 0 {
                content.append("\n");
            }
            content.append(self.lines[i].as_str());
            assert(all.take(i + 1).drop_last() =~= all.take(i as int));
            assert(all.take(i + 1).last() == all[i as int]);
            assert(i == 0 ==> before + all[0] =~= all[0]);
            i += 1;
        }
        assert(all.take(i as int) =~= all);
        content
    }

    /// Where the selection starts.
    pub fn selection_start(&self) -> (r: TextPoint)
        ensures
            r == self@.selection_start(),
    {
        match (self.selection_direction, self.selection_origin) {
            (SelectionDirection::Backward, _) => self.edit_point,
            (_, Some(origin)) => origin,
            (_, None) => self.edit_point,
        }
    }

    /// Where the selection ends.
    pub fn selection_end(&self) -> (r: TextPoint)
        ensures
            r == self@.selection_end(),
    {
        match (self.selection_direction, self.selection_origin) {
            (SelectionDirection::Backward, Some(origin)) => origin,
            _ => self.edit_point,
        }
    }

    /// The selection.
    pub fn selection_state(&self) -> (r: SelectionState)
        ensures
            r == (SelectionState {
                start: self@.selection_start(),
                end: self@.selection_end(),
                direction: self@.selection_direction,
            }),
    {
        SelectionState {
            start: self.selection_start(),
            end: self.selection_end(),
            direction: self.selection_direction,
        }
    }

    /// How many bytes come before a place in the text.
    pub fn text_point_to_offset(&self, point: TextPoint) -> (r: UTF8Bytes)
        requires
            self@.valid(),
            is_in(point, self@.lines),
        ensures
            r.0 == offset_of(point, self@.lines),
    {
        let ghost all = self@.lines;
        proof {
            lemma_start_is_monotone(all, point.line + 1, all.len() as int);
        }
        let mut sum: usize = 0;
        let mut i: usize = 0;
        while i < point.line
            invariant
                i <= point.line,
                point.line < self.lines@.len(),
                all == texts(self.lines@),
                sum == start_of(all, i as int),
                start_of(all, point.line + 1) <= usize::MAX + 1,
            decreases point.line - i,
        {
            proof {
                lemma_start_is_monotone(all, i + 1, point.line as int);
                assert(start_of(all, point.line + 1) >= start_of(all, point.line as int) + 1);
                assert(start_of(all, i + 1) == start_of(all, i as int) + utf8_len(all[i as int])
                    + 1);
            }
            sum = sum + byte_len(&self.lines[i]) + 1;
            i += 1;
        }
        proof {
            assert(start_of(all, point.line + 1) == start_of(all, point.line as int) + utf8_len(
                all[point.line as int],
            ) + 1);
        }
        UTF8Bytes(sum + point.index.0)
    }

    /// How many bytes come before the selection and before its end.
    pub fn sorted_selection_offsets_range(&self) -> (r: std::ops::Range<UTF8Bytes>)
        requires
            self@.valid(),
        ensures
            r.start.0 == offset_of(self@.selection_start(), self@.lines),
            r.end.0 == offset_of(self@.selection_end(), self@.lines),
            r.start.0 <= r.end.0,
    {
        let start = self.text_point_to_offset(self.selection_start());
        let end = self.text_point_to_offset(self.selection_end());
        proof {
            lemma_offsets_are_sorted(self@.selection_start(), self@.selection_end(), self@.lines);
        }
        std::ops::Range { start, end }
    }
}

proof fn lemma_start_is_monotone(lines: Seq<Seq<char>>, a: int, b: int)
    requires
        0 <= a <= b,
    ensures
        start_of(lines, a) <= start_of(lines, b),
    decreases b - a,
{
    if a < b {
        lemma_start_is_monotone(lines, a, b - 1);
    }
}

proof fn lemma_offsets_are_sorted(a: TextPoint, b: TextPoint, lines: Seq<Seq<char>>)
    requires
        is_in(a, lines),
        is_in(b, lines),
        is_not_behind(a, b),
    ensures
        offset_of(a, lines) <= offset_of(b, lines),
{
    if a.line < b.line {
        lemma_start_is_monotone(lines, a.line + 1, b.line as int);
        assert(start_of(lines, a.line + 1) == start_of(lines, a.line as int) + utf8_len(
            lines[a.line as int],
        ) + 1);
    }
}

proof fn lemma_content_of_rest(first: Seq<char>, rest: Seq<Seq<char>>)
    requires
        rest.len() > 0,
    ensures
        content_of(seq![first] + rest) == first + "\n"@ + content_of(rest),
    decreases rest.len(),
{
    let all = seq![first] + rest;
    if rest.len() == 1 {
        assert(all.drop_last() =~= seq![first]);
        assert(content_of(all.drop_last()) == first);
        assert(all.last() == rest[0]);
    } else {
        let init = rest.drop_last();
        assert(all.drop_last() =~= seq![first] + init);
        assert(all.last() == rest.last());
        lemma_content_of_rest(first, init);
        assert(content_of(all) =~= first + "\n"@ + (content_of(init) + "\n"@ + rest.last()));
    }
}

/// A text that was taken on is given back as it was, if it has no carriage returns.
pub proof fn law_text_is_kept(text: Seq<char>)
    requires
        !text.contains('\r'),
    ensures
        content_of(lines_of(text)) == text,
    decreases text.len(),
{
    lemma_first_break(text);
    let end = first_break(text) as int;
    if end < text.len() {
        assert(text.contains(text[end]));
        let rest = text.skip(end + 1);
        assert(!rest.contains('\r')) by {
            if rest.contains('\r') {
                let i = choose|i: int| 0 <= i < rest.len() && rest[i] == '\r';
                assert(text[end + 1 + i] == '\r');
            }
        }
        law_text_is_kept(rest);
        lemma_lines_exist(rest);
        lemma_content_of_rest(text.take(end), lines_of(rest));
        reveal_strlit("\n");
        assert("\n"@ =~= seq!['\n']);
        assert(text.take(end) + "\n"@ + rest =~= text);
    }
}

/// Whatever text was taken on, the text that is given back has no carriage returns, so that to
/// take it on again changes nothing.
pub proof fn law_content_is_normalized(text: Seq<char>)
    ensures
        !content_of(lines_of(text)).contains('\r'),
        content_of(lines_of(content_of(lines_of(text)))) == content_of(lines_of(text)),
{
    lemma_no_carriage_return(text);
    law_text_is_kept(content_of(lines_of(text)));
}

proof fn lemma_no_carriage_return(text: Seq<char>)
    ensures
        !content_of(lines_of(text)).contains('\r'),
    decreases text.len(),
{
    lemma_first_break(text);
    let end = first_break(text) as int;
    let content = content_of(lines_of(text));
    if end >= text.len() {
        assert(content == text);
        if text.contains('\r') {
            let i = choose|i: int| 0 <= i < text.len() && text[i] == '\r';
            assert(!ends_line(text[i]));
        }
    } else {
        let rest = text.skip(end + break_len(text, end));
        lemma_no_carriage_return(rest);
        lemma_lines_exist(rest);
        lemma_content_of_rest(text.take(end), lines_of(rest));
        reveal_strlit("\n");
        if content.contains('\r') {
            let i = choose|i: int| 0 <= i < content.len() && content[i] == '\r';
            if i < end {
                assert(content[i] == text[i]);
                assert(!ends_line(text[i]));
            } else if i > end {
                assert(content[i] == content_of(lines_of(rest))[i - end - 1]);
                assert(content_of(lines_of(rest)).contains('\r'));
            }
        }
    }
}

/// No line holds the end of one.
pub proof fn law_lines_hold_no_line_ends(text: Seq<char>, i: int, k: int)
    requires
        0 <= i < lines_of(text).len(),
        0 <= k < lines_of(text)[i].len(),
    ensures
        lines_of(text)[i][k] != '\n',
        lines_of(text)[i][k] != '\r',
    decreases text.len(),
{
    lemma_first_break(text);
    let end = first_break(text) as int;
    if end >= text.len() {
        assert(!ends_line(text[k]));
    } else {
        let rest = text.skip(end + break_len(text, end));
        if i == 0 {
            assert(lines_of(text)[0] == text.take(end));
            assert(!ends_line(text[k]));
        } else {
            assert(lines_of(text)[i] == lines_of(rest)[i - 1]);
            law_lines_hold_no_line_ends(rest, i - 1, k);
        }
    }
}

/// A carriage return and a line feed end a line together.
pub proof fn law_both_characters_end_one_line(text: Seq<char>)
    ensures
        lines_of(seq!['\r', '\n'] + text) == lines_of(seq!['\n'] + text),
{
    let both = seq!['\r', '\n'] + text;
    let one = seq!['\n'] + text;
    assert(both.skip(2) =~= text);
    assert(one.skip(1) =~= text);
    assert(both.take(0) =~= one.take(0));
}

proof fn lemma_start_counts_content(lines: Seq<Seq<char>>, line: int)
    requires
        0 < line <= lines.len(),
    ensures
        start_of(lines, line) == utf8_len(content_of(lines.take(line))) + 1,
    decreases line,
{
    let head = lines.take(line);
    assert(head.last() == lines[line - 1]);
    if line == 1 {
        assert(content_of(head) == lines[0]);
        assert(start_of(lines, 0) == 0);
        assert(start_of(lines, 1) == start_of(lines, 0) + utf8_len(lines[0]) + 1);
    } else {
        assert(head.drop_last() =~= lines.take(line - 1));
        lemma_start_counts_content(lines, line - 1);
        let before = content_of(lines.take(line - 1));
        lemma_utf8_concat(before + "\n"@, lines[line - 1]);
        lemma_utf8_concat(before, "\n"@);
        reveal_strlit("\n");
        assert("\n"@ =~= seq!['\n']);
        is_ascii_chars_encode_utf8(seq!['\n']);
        assert(utf8_len("\n"@) == 1);
    }
}

/// How many bytes come before a place is how many the text has up to it: those of the text up to the
/// end of the line, but for those of the line that come after the place.
pub proof fn law_offsets_count_the_text(point: TextPoint, lines: Seq<Seq<char>>)
    requires
        is_in(point, lines),
    ensures
        offset_of(point, lines) == utf8_len(content_of(lines.take(point.line + 1))) - utf8_len(
            lines[point.line as int],
        ) + point.index.0,
{
    lemma_start_counts_content(lines, point.line + 1);
    assert(start_of(lines, point.line + 1) == start_of(lines, point.line as int) + utf8_len(
        lines[point.line as int],
    ) + 1);
}

/// A place that is in the text stays where it is, and any other is moved into it.
pub proof fn law_places_stay_in_the_text(point: TextPoint, lines: Seq<Seq<char>>)
    requires
        0 < lines.len() <= usize::MAX,
        forall|i: int| 0 <= i < lines.len() ==> utf8_len(#[trigger] lines[i]) <= usize::MAX,
    ensures
        is_in(constrained(point, lines), lines),
        is_in(point, lines) ==> constrained(point, lines) == point,
{
    assert(utf8_len(lines[lines.len() - 1]) <= usize::MAX);
}

/// A selection that was made backwards starts at the caret and ends where it was begun; every other
/// one starts where it was begun and ends at the caret. Without one, both are the caret.
pub proof fn law_selection_is_between_caret_and_origin(input: TextInputModel, origin: TextPoint)
    ensures
        input.selection_origin == Some(origin) && input.selection_direction
            == SelectionDirection::Backward ==> input.selection_start() == input.edit_point
            && input.selection_end() == origin,
        input.selection_origin == Some(origin) && input.selection_direction
            != SelectionDirection::Backward ==> input.selection_start() == origin
            && input.selection_end() == input.edit_point,
        input.selection_origin is None ==> input.selection_start() == input.edit_point
            && input.selection_end() == input.edit_point,
{
}

} // verus!
