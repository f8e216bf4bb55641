//! The glyph records of a font and the sheets that are made from them: one
//! sheet for the upper-case form of a letter, one for its lower-case form.

use vstd::prelude::*;
use crate::bbox::{bounding_box, get_rect, PathError};
use crate::chars::{
    ascii, contains_char, decoded_entities, first_of, fold_lower, fold_upper, glyph_character,
    is_ascii_char, lower_case, to_lower, to_upper, upper_case,
};
use crate::command::{path_view, CommandView, PathCommand};
use crate::outline::{bits_units, outline_of, parse_path, units_of_bits, OutlineError};
use crate::rect::Rect;
use crate::transform::{flip_and_align_path, flipped_path, transformable};

verus! {

/// One glyph of the font: its advance width and its outline.
#[derive(Debug)]
pub struct Glyph {
    pub advance: i64,
    pub commands: Vec<PathCommand>,
}

/// The mathematical value of a glyph.
pub ghost struct GlyphView {
    pub advance: i64,
    pub commands: Seq<CommandView>,
}

impl View for Glyph {
    type V = GlyphView;

    open spec fn view(&self) -> GlyphView {
        GlyphView { advance: self.advance, commands: path_view(self.commands@) }
    }
}

/// One image to be written: the character it is named after, the
/// transformed outline, the size of its view region, and whether an opaque
/// background spans that region beneath the outline.
#[derive(Debug)]
pub struct Sheet {
    pub character: char,
    pub commands: Vec<PathCommand>,
    pub view_width: i64,
    pub view_height: i64,
    pub background: bool,
}

/// The mathematical value of a sheet.
pub ghost struct SheetView {
    pub character: char,
    pub commands: Seq<CommandView>,
    pub view_width: int,
    pub view_height: int,
    pub background: bool,
}

impl View for Sheet {
    type V = SheetView;

    open spec fn view(&self) -> SheetView {
        SheetView {
            character: self.character,
            commands: path_view(self.commands@),
            view_width: self.view_width as int,
            view_height: self.view_height as int,
            background: self.background,
        }
    }
}

/// The mathematical value of a list of sheets.
pub open spec fn sheets_view(sheets: Seq<Sheet>) -> Seq<SheetView> {
    Seq::new(sheets.len(), |i: int| sheets[i]@)
}

/// The sheet made from one glyph: its outline transformed into the frame of
/// `rect` with the glyph's own advance width, in a view region of the size of
/// `rect`.
pub open spec fn sheet_of(glyph: GlyphView, character: char, rect: Rect, background: bool) -> Result<
    SheetView,
    PathError,
> {
    if transformable(glyph.commands, rect, glyph.advance as int) {
        Ok(
            SheetView {
                character,
                commands: flipped_path(glyph.commands, rect, glyph.advance as int),
                view_width: rect.spec_width(),
                view_height: rect.spec_height(),
                background,
            },
        )
    } else {
        Err(PathError::OutOfRange)
    }
}

/// Why a glyph is not recorded.
#[derive(Clone, Copy, Debug, PartialEq, Eq, Structural)]
pub enum RecordError {
    /// The glyph's name decodes to nothing.
    Unnamed,
    /// The glyph's path text is not a path.
    Malformed,
    /// The glyph's advance width, or a number of its path, is not finite or
    /// lies outside the coordinate range.
    OutOfRange,
}

/// What a font's glyph gives to record: nothing for a character outside
/// ASCII, else the character with its advance width and outline in
/// sub-units.
pub open spec fn record_of(name: Seq<char>, advance: u32, path: Seq<char>) -> Result<
    Option<(char, GlyphView)>,
    RecordError,
> {
    match first_of(decoded_entities(name)) {
        None => Err(RecordError::Unnamed),
        Some(c) => if !ascii(c) {
            Ok(None)
        } else {
            match bits_units(advance) {
                None => Err(RecordError::OutOfRange),
                Some(width) => match outline_of(path) {
                    Err(OutlineError::Malformed) => Err(RecordError::Malformed),
                    Err(OutlineError::OutOfRange) => Err(RecordError::OutOfRange),
                    Ok(commands) => Ok(Some((c, GlyphView { advance: width, commands }))),
                },
            }
        },
    }
}

/// The glyph records of a font, by ASCII character, and the letters met, each
/// once, in lower case, in the order in which they were first met.
pub struct GlyphTable {
    slots: Vec<Option<Glyph>>,
    letters: Vec<char>,
}

impl GlyphTable {
    /// The record of `c`, if there is one. Characters outside ASCII have none.
    pub closed spec fn record(&self, c: char) -> Option<GlyphView> {
        if ascii(c) && (c as int) < self.slots.len() {
            match self.slots[c as int] {
                Some(g) => Some(g@),
                None => None,
            }
        } else {
            None
        }
    }

    /// The letters met, in lower case, in the order of their first record.
    pub closed spec fn order(&self) -> Seq<char> {
        self.letters@
    }

    /// The table holds a slot for every ASCII character; its letters are
    /// ASCII, in lower case and pairwise distinct, and every recorded
    /// character's lower-case form is among them.
    pub closed spec fn wf(&self) -> bool {
        &&& self.slots.len() == 128
        &&& self.letters@.no_duplicates()
        &&& forall|i: int|
            0 <= i < self.letters.len() ==> ascii(#[trigger] self.letters[i]) && fold_lower(
                self.letters[i],
            ) == self.letters[i]
        &&& forall|c: char| (#[trigger] self.record(c)) is Some ==> self.letters@.contains(
            fold_lower(c),
        )
    }

    /// The reference box after the upper-case letters below the code `upto`
    /// have been measured in order: each one that has a record replaces what
    /// the earlier ones gave; the first outline that cannot be measured ends
    /// the pass with its error.
    pub open spec fn reference_upto(&self, upto: nat) -> Result<Option<Rect>, PathError>
        decreases upto,
    {
        if upto <= 65 {
            Ok(None)
        } else {
            match self.reference_upto((upto - 1) as nat) {
                Err(e) => Err(e),
                Ok(earlier) => match self.record((upto - 1) as char) {
                    None => Ok(earlier),
                    Some(g) => match bounding_box(g.commands) {
                        Err(e) => Err(e),
                        Ok(r) => Ok(Some(r)),
                    },
                },
            }
        }
    }

    /// The reference box of the font: what measuring `A` to `Z` in order
    /// leaves.
    pub open spec fn reference(&self) -> Result<Option<Rect>, PathError> {
        self.reference_upto(91)
    }

    /// The sheets made for a letter. Without a record of its upper-case form
    /// there are none. Otherwise the upper-case form gives one with a
    /// background; a letter that differs from its upper-case form and has
    /// a record of its own gives a second one, without a background.
    pub open spec fn sheets_for(&self, letter: char, rect: Rect) -> Result<
        Seq<SheetView>,
        PathError,
    > {
        let capital = fold_upper(letter);
        match self.record(capital) {
            None => Ok(Seq::empty()),
            Some(gu) => match sheet_of(gu, capital, rect, true) {
                Err(e) => Err(e),
                Ok(first) => if letter != capital {
                    match self.record(letter) {
                        None => Ok(seq![first]),
                        Some(gl) => match sheet_of(gl, letter, rect, false) {
                            Err(e) => Err(e),
                            Ok(second) => Ok(seq![first, second]),
                        },
                    }
                } else {
                    Ok(seq![first])
                },
            },
        }
    }

    /// The sheets of the first `n` letters, in the letters' order; the first
    /// letter whose sheets cannot be made ends the pass with its error.
    pub open spec fn sheets_upto(&self, rect: Rect, n: nat) -> Result<Seq<SheetView>, PathError>
        decreases n,
    {
        if n == 0 {
            Ok(Seq::empty())
        } else {
            match self.sheets_upto(rect, (n - 1) as nat) {
                Err(e) => Err(e),
                Ok(done) => match self.sheets_for(self.order()[n - 1], rect) {
                    Err(e) => Err(e),
                    Ok(more) => Ok(done + more),
                },
            }
        }
    }

    /// The sheets of all letters in the frame of `rect`.
    pub open spec fn all_sheets(&self, rect: Rect) -> Result<Seq<SheetView>, PathError> {
        self.sheets_upto(rect, self.order().len())
    }

    /// What a font gives: nothing where no upper-case letter has a record,
    /// else the sheets of all letters in the frame of the reference box.
    pub open spec fn output(&self) -> Result<Option<Seq<SheetView>>, PathError> {
        match self.reference() {
            Err(e) => Err(e),
            Ok(None) => Ok(None),
            Ok(Some(rect)) => match self.all_sheets(rect) {
                Err(e) => Err(e),
                Ok(sheets) => Ok(Some(sheets)),
            },
        }
    }

    /// The table without any record.
    pub fn new() -> (table: GlyphTable)
        ensures
            table.wf(),
            table.order() == Seq::<char>::empty(),
            forall|c: char| (#[trigger] table.record(c)) is None,
    {
        let mut slots: Vec<Option<Glyph>> = Vec::new();
        let mut i: usize = 0;
        while i < 128
            invariant
                i <= 128,
                slots.len() == i,
                forall|j: int| 0 <= j < i ==> (#[trigger] slots[j]) is None,
            decreases 128 - i,
        {
            slots.push(None);
            i += 1;
        }
        GlyphTable { slots, letters: Vec::new() }
    }

    /// Records a glyph under `character`, replacing an earlier record of the
    /// same character. A character outside ASCII is not recorded and leaves
    /// the table as it was. The character's lower-case form joins the letters
    /// unless it is among them already.
    pub fn insert(&mut self, character: char, advance: i64, commands: Vec<PathCommand>)
        requires
            old(self).wf(),
        ensures
            final(self).wf(),
            !ascii(character) ==> final(self).order() == old(self).order() && forall|c: char|
                (#[trigger] final(self).record(c)) == old(self).record(c),
            ascii(character) ==> final(self).record(character) == Some(
                GlyphView { advance, commands: path_view(commands@) },
            ),
            forall|c: char|
                c != character ==> (#[trigger] final(self).record(c)) == old(self).record(c),
            ascii(character) ==> final(self).order() == (if old(self).order().contains(
                fold_lower(character),
            ) {
                old(self).order()
            } else {
                old(self).order().push(fold_lower(character))
            }),
    {
        if !is_ascii_char(character) {
            return ;
        }
        let ghost before = *self;
        let folded = to_lower(character);
        if !contains_char(&self.letters, folded) {
            self.letters.push(folded);
        }
        let index: usize = (character as u32) as usize;
        self.slots.set(index, Some(Glyph { advance, commands }));
        proof {
            assert forall|c: char| c != character implies (#[trigger] self.record(c))
                == before.record(c) by {
                assert(c as int != character as int);
            }
            assert forall|c: char| (#[trigger] self.record(c)) is Some implies self.letters@.contains(
                fold_lower(c),
            ) by {
                if c == character {
                    if before.letters@.contains(folded) {
                        let k = choose|k: int| 0 <= k < before.letters.len() && before.letters[k] == folded;
                        assert(self.letters[k] == folded);
                    } else {
                        assert(self.letters[before.letters.len() as int] == folded);
                    }
                } else {
                    assert(before.record(c) is Some);
                    let k = choose|k: int|
                        0 <= k < before.letters.len() && before.letters[k] == fold_lower(c);
                    assert(self.letters[k] == fold_lower(c));
                }
            }
        }
    }

    /// The record of `c`, if there is one.
    pub fn get(&self, c: char) -> (r: Option<&Glyph>)
        requires
            self.wf(),
        ensures
            match r {
                Some(g) => self.record(c) == Some(g@),
                None => self.record(c) is None,
            },
    {
        if !is_ascii_char(c) {
            return None;
        }
        let index: usize = (c as u32) as usize;
        self.slots[index].as_ref()
    }

    /// The letters met, in lower case, in the order of their first record.
    pub fn letters(&self) -> (r: Vec<char>)
        ensures
            r@ == self.order(),
    {
        let r = self.letters.clone();
        assert(r@ =~= self.letters@);
        r
    }

    /// Records the glyph that a font gives: under the first character of its
    /// decoded name, with its advance width and its path text read into
    /// sub-units. A name that decodes to nothing is an error. A character
    /// outside ASCII is passed over before its width and path are looked at.
    /// Whenever nothing is recorded the table stays as it was.
    pub fn record_glyph(&mut self, name: &str, advance: u32, path: &str) -> (r: Result<
        (),
        RecordError,
    >)
        requires
            old(self).wf(),
        ensures
            final(self).wf(),
            match record_of(name@, advance, path@) {
                Err(e) => r == Err::<(), RecordError>(e),
                Ok(_) => r is Ok,
            },
            forall|c: char|
                !(record_of(name@, advance, path@) matches Ok(Some(entry)) && entry.0 == c) ==> (
                #[trigger] final(self).record(c)) == old(self).record(c),
            match record_of(name@, advance, path@) {
                Ok(Some(entry)) => {
                    &&& final(self).record(entry.0) == Some(entry.1)
                    &&& final(self).order() == (if old(self).order().contains(
                        fold_lower(entry.0),
                    ) {
                        old(self).order()
                    } else {
                        old(self).order().push(fold_lower(entry.0))
                    })
                },
                _ => final(self).order() == old(self).order(),
            },
    {
        let character = match glyph_character(name) {
            Some(c) => c,
            None => {
                return Err(RecordError::Unnamed);
            },
        };
        if !is_ascii_char(character) {
            return Ok(());
        }
        let width = match units_of_bits(advance) {
            Some(w) => w,
            None => {
                return Err(RecordError::OutOfRange);
            },
        };
        match parse_path(path) {
            Err(OutlineError::Malformed) => Err(RecordError::Malformed),
            Err(OutlineError::OutOfRange) => Err(RecordError::OutOfRange),
            Ok(commands) => {
                self.insert(character, width, commands);
                Ok(())
            },
        }
    }

    /// Derives the reference box: measures `A` to `Z` in order, each
    /// measurement replacing the one before, so that the box of the last
    /// upper-case letter with a record is what remains. `None` where no
    /// upper-case letter has a record.
    pub fn reference_rect(&self) -> (r: Result<Option<Rect>, PathError>)
        requires
            self.wf(),
        ensures
            r == self.reference(),
            r matches Ok(Some(rect)) ==> rect.wf(),
    {
        let mut found: Option<Rect> = None;
        let mut code: u32 = 65;
        while code < 91
            invariant
                65 <= code <= 91,
                self.wf(),
                self.reference_upto(code as nat) == Ok::<Option<Rect>, PathError>(found),
                found matches Some(rect) ==> rect.wf(),
            decreases 91 - code,
        {
            let c: char = (code as u8) as char;
            match self.get(c) {
                Some(glyph) => {
                    match get_rect(&glyph.commands) {
                        Err(e) => {
                            proof {
                                self.lemma_reference_error_stays((code + 1) as nat, 91);
                            }
                            return Err(e);
                        },
                        Ok(rect) => {
                            found = Some(rect);
                        },
                    }
                },
                None => {},
            }
            code += 1;
        }
        Ok(found)
    }

    /// An error among the letters below `n` is the result for any later bound.
    pub proof fn lemma_reference_error_stays(&self, n: nat, m: nat)
        requires
            n <= m,
            self.reference_upto(n) is Err,
        ensures
            self.reference_upto(m) == self.reference_upto(n),
        decreases m,
    {
        if n < m {
            self.lemma_reference_error_stays(n, (m - 1) as nat);
        }
    }

    /// The last upper-case letter with a record decides the reference box:
    /// where `capital` has a record and no upper-case letter after it has
    /// one, a reference box that is derived at all is the bounding box of
    /// `capital`, whatever the letters before it hold.
    pub proof fn lemma_last_capital_wins(&self, capital: char, upto: nat)
        requires
            upper_case(capital),
            self.record(capital) is Some,
            forall|c: char|
                upper_case(c) && (c as int) > (capital as int) ==> (#[trigger] self.record(c)) is None,
            (capital as int) < upto <= 91,
        ensures
            self.reference_upto(upto) is Ok ==> bounding_box(self.record(capital)->Some_0.commands)
                is Ok && self.reference_upto(upto) == Ok::<Option<Rect>, PathError>(
                Some(bounding_box(self.record(capital)->Some_0.commands)->Ok_0),
            ),
        decreases upto,
    {
        if upto == (capital as int) + 1 {
            assert((upto - 1) as char == capital);
        } else {
            self.lemma_last_capital_wins(capital, (upto - 1) as nat);
            let c = (upto - 1) as char;
            assert(upper_case(c) && (c as int) > (capital as int));
            assert(self.record(c) is None);
        }
    }


    /// A lower-case letter that has no record of its own, while its
    /// upper-case form has one, gives exactly one sheet: that of the
    /// upper-case form, with a background.
    pub proof fn lemma_capital_alone(&self, letter: char, rect: Rect)
        requires
            lower_case(letter),
            self.record(letter) is None,
            self.record(fold_upper(letter)) is Some,
            sheet_of(self.record(fold_upper(letter))->Some_0, fold_upper(letter), rect, true) is Ok,
        ensures
            self.sheets_for(letter, rect) is Ok,
            self.sheets_for(letter, rect)->Ok_0.len() == 1,
            self.sheets_for(letter, rect)->Ok_0[0].character == fold_upper(letter),
            self.sheets_for(letter, rect)->Ok_0[0].background,
    {
    }

    /// A letter whose upper-case form has no record gives no sheet, whether
    /// or not the letter itself has one.
    pub proof fn lemma_no_capital_no_sheet(&self, letter: char, rect: Rect)
        requires
            self.record(fold_upper(letter)) is None,
        ensures
            self.sheets_for(letter, rect) == Ok::<Seq<SheetView>, PathError>(Seq::empty()),
    {
    }

    /// Makes the sheets of one letter in the frame of `rect`: the sheet of
    /// its upper-case form, with a background, and after it that of the
    /// letter itself where it is another character and has a record, without
    /// one. A letter whose upper-case form has no record gives no sheet.
    pub fn process_glyph(&self, letter: char, rect: Rect) -> (r: Result<Vec<Sheet>, PathError>)
        requires
            self.wf(),
        ensures
            match r {
                Ok(sheets) => self.sheets_for(letter, rect) == Ok::<Seq<SheetView>, PathError>(
                    sheets_view(sheets@),
                ),
                Err(e) => self.sheets_for(letter, rect) == Err::<Seq<SheetView>, PathError>(e),
            },
    {
        let capital = to_upper(letter);
        let mut sheets: Vec<Sheet> = Vec::new();
        match self.get(capital) {
            None => {
                assert(sheets_view(sheets@) =~= Seq::empty());
            },
            Some(upper_glyph) => {
                let first = make_sheet(upper_glyph, capital, rect, true)?;
                let ghost first_view = first@;
                sheets.push(first);
                let lower_glyph = if letter != capital {
                    self.get(letter)
                } else {
                    None
                };
                match lower_glyph {
                    None => {
                        assert(sheets_view(sheets@) =~= seq![first_view]);
                    },
                    Some(glyph) => {
                        let second = make_sheet(glyph, letter, rect, false)?;
                        let ghost second_view = second@;
                        sheets.push(second);
                        assert(sheets_view(sheets@) =~= seq![first_view, second_view]);
                    },
                }
            },
        }
        Ok(sheets)
    }

    /// An error among the first `n` letters is the result for any later
    /// bound.
    pub proof fn lemma_sheets_error_stays(&self, rect: Rect, n: nat, m: nat)
        requires
            n <= m,
            self.sheets_upto(rect, n) is Err,
        ensures
            self.sheets_upto(rect, m) == self.sheets_upto(rect, n),
        decreases m,
    {
        if n < m {
            self.lemma_sheets_error_stays(rect, n, (m - 1) as nat);
        }
    }

    /// Makes the sheets of all letters in the frame of `rect`, letter by
    /// letter in the order in which the letters were first met.
    pub fn export(&self, rect: Rect) -> (r: Result<Vec<Sheet>, PathError>)
        requires
            self.wf(),
        ensures
            match r {
                Ok(sheets) => self.all_sheets(rect) == Ok::<Seq<SheetView>, PathError>(
                    sheets_view(sheets@),
                ),
                Err(e) => self.all_sheets(rect) == Err::<Seq<SheetView>, PathError>(e),
            },
    {
        let mut sheets: Vec<Sheet> = Vec::new();
        let mut i: usize = 0;
        assert(sheets_view(sheets@) =~= Seq::empty());
        while i < self.letters.len()
            invariant
                i <= self.letters.len(),
                self.wf(),
                self.sheets_upto(rect, i as nat) == Ok::<Seq<SheetView>, PathError>(
                    sheets_view(sheets@),
                ),
            decreases self.letters.len() - i,
        {
            match self.process_glyph(self.letters[i], rect) {
                Err(e) => {
                    proof {
                        self.lemma_sheets_error_stays(
                            rect,
                            (i + 1) as nat,
                            self.letters.len() as nat,
                        );
                    }
                    return Err(e);
                },
                Ok(more) => {
                    let mut more = more;
                    let ghost done = sheets@;
                    let ghost added = more@;
                    sheets.append(&mut more);
                    assert(sheets_view(sheets@) =~= sheets_view(done) + sheets_view(added));
                },
            }
            i += 1;
        }
        Ok(sheets)
    }

    /// Turns the recorded glyphs into sheets: derives the reference box from
    /// the upper-case letters and makes the sheets of all letters in its
    /// frame. `None` where no upper-case letter has a record.
    pub fn process(&self) -> (r: Result<Option<Vec<Sheet>>, PathError>)
        requires
            self.wf(),
        ensures
            match r {
                Ok(Some(sheets)) => self.output() == Ok::<Option<Seq<SheetView>>, PathError>(
                    Some(sheets_view(sheets@)),
                ),
                Ok(None) => self.output() == Ok::<Option<Seq<SheetView>>, PathError>(None),
                Err(e) => self.output() == Err::<Option<Seq<SheetView>>, PathError>(e),
            },
    {
        match self.reference_rect() {
            Err(e) => Err(e),
            Ok(None) => Ok(None),
            Ok(Some(rect)) => match self.export(rect) {
                Err(e) => Err(e),
                Ok(sheets) => Ok(Some(sheets)),
            },
        }
    }
}

/// A copy of an outline.
pub fn copy_path(commands: &Vec<PathCommand>) -> (copy: Vec<PathCommand>)
    ensures
        path_view(copy@) == path_view(commands@),
{
    let mut copy: Vec<PathCommand> = Vec::new();
    let mut i: usize = 0;
    while i < commands.len()
        invariant
            i <= commands.len(),
            copy.len() == i,
            forall|j: int| 0 <= j < i ==> (#[trigger] copy[j])@ == commands[j]@,
        decreases commands.len() - i,
    {
        let params = commands[i].params.clone();
        assert(params@ =~= commands[i as int].params@);
        copy.push(PathCommand { kind: commands[i].kind, position: commands[i].position, params });
        i += 1;
    }
    assert(path_view(copy@) =~= path_view(commands@));
    copy
}

/// Makes the sheet of one glyph in the frame of `rect`: a copy of its outline,
/// flipped and centred with the glyph's own advance width, in a view region
/// of the size of `rect`.
pub fn make_sheet(glyph: &Glyph, character: char, rect: Rect, background: bool) -> (r: Result<
    Sheet,
    PathError,
>)
    ensures
        match r {
            Ok(sheet) => sheet_of(glyph@, character, rect, background) == Ok::<
                SheetView,
                PathError,
            >(sheet@),
            Err(e) => sheet_of(glyph@, character, rect, background) == Err::<SheetView, PathError>(
                e,
            ),
        },
{
    let mut commands = copy_path(&glyph.commands);
    match flip_and_align_path(&mut commands, rect, glyph.advance) {
        Err(e) => Err(e),
        Ok(()) => Ok(
            Sheet {
                character,
                commands,
                view_width: rect.width(),
                view_height: rect.height(),
                background,
            },
        ),
    }
}

} // verus!
