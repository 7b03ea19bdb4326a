//! Generic machinery for line-oriented, colon-delimited account-record
//! files: the field-cursor used by every schema, the `Entry` capability
//! interface, and the sequential reader and append-only writer that are
//! parameterized over it.
//!
//! The reader and writer work on in-memory text.  The surrounding shell
//! reads a file into a string before handing it here, and appends the
//! writer's buffer back to the file afterwards; every decision in between
//! is verified.

use core::marker::PhantomData;
use vstd::prelude::*;
use vstd::string::StrSliceExecFns;
use vstd::string::StringExecFns;

use crate::util::dec_val;
use crate::util::is_u32_numeral;
use crate::util::split_spec;
use crate::util::split_str;
use crate::util::trim_end_blanks;
use crate::util::trim_end_spec;

verus! {

/// Failure modes when turning a line of an account file into a record.
///
/// The three variants are deliberately distinguishable so that a caller can
/// treat, say, one bad historical line as skippable while still failing hard
/// on an I/O error reported by the surrounding shell.
#[derive(Debug, PartialEq, Eq)]
pub enum ReadEntryError {
    /// The surrounding shell could not read from the underlying file; the
    /// payload carries its description of the failure.  The parsing code in
    /// this crate never produces this variant itself.
    Io(String),
    /// A field that must be numeric was non-empty and not a decimal number
    /// representable in 32 bits.
    ParseInt,
    /// The line is structurally malformed: it has fewer fields than the
    /// record format requires.
    Invalid,
}

/// Failure modes when appending a record line to an account file.
#[derive(Debug, PartialEq, Eq)]
pub enum WriteError {
    /// The underlying write consumed fewer bytes than requested.  A
    /// truncated account-file line is a system-integrity hazard, so this is
    /// a hard failure.
    ShortWrite,
}

// ---------------------------------------------------------------------
// Field extraction, specified positionally over the split fields
// ---------------------------------------------------------------------

/// The string field at position `i`, or `Invalid` when no field is left.
pub open spec fn field_at(fields: Seq<Seq<char>>, i: int) -> Result<Seq<char>, ReadEntryError> {
    if 0 <= i < fields.len() {
        Ok(fields[i])
    } else {
        Err(ReadEntryError::Invalid)
    }
}

/// The required numeric field at position `i`: `Invalid` when missing,
/// `ParseInt` when not a 32-bit decimal numeral.
pub open spec fn u32_field_at(fields: Seq<Seq<char>>, i: int) -> Result<u32, ReadEntryError> {
    if !(0 <= i < fields.len()) {
        Err(ReadEntryError::Invalid)
    } else if is_u32_numeral(fields[i]) {
        Ok(dec_val(fields[i]) as u32)
    } else {
        Err(ReadEntryError::ParseInt)
    }
}

/// The optional numeric field at position `i`: `Invalid` when missing, an
/// absent value when empty, `ParseInt` when non-empty and not a numeral.
pub open spec fn opt_u32_field_at(fields: Seq<Seq<char>>, i: int) -> Result<
    Option<u32>,
    ReadEntryError,
> {
    if !(0 <= i < fields.len()) {
        Err(ReadEntryError::Invalid)
    } else if fields[i].len() == 0 {
        Ok(None)
    } else if is_u32_numeral(fields[i]) {
        Ok(Some(dec_val(fields[i]) as u32))
    } else {
        Err(ReadEntryError::ParseInt)
    }
}

// ---------------------------------------------------------------------
// EntLineParser
// ---------------------------------------------------------------------

/// A cursor over the colon-separated fields of one line.
pub struct EntLineParser<'a> {
    fields: Vec<&'a str>,
    pos: usize,
}

impl<'a> EntLineParser<'a> {
    /// The fields this cursor walks over.
    pub closed spec fn fields_view(&self) -> Seq<Seq<char>> {
        self.fields.deep_view()
    }

    /// The position of the next unconsumed field.
    pub closed spec fn at(&self) -> int {
        self.pos as int
    }

    /// Starts a cursor on the colon-separated fields of `line`.
    pub fn new(line: &'a str) -> (p: EntLineParser<'a>)
        ensures
            p.fields_view() == split_spec(line@, ':'),
            p.at() == 0,
    {
        EntLineParser { fields: split_str(line, ':'), pos: 0 }
    }

    /// Yields the next field, or `Invalid` when none remains.
    pub fn next_field_str(&mut self) -> (r: Result<&'a str, ReadEntryError>)
        ensures
            final(self).fields_view() == old(self).fields_view(),
            match r {
                Ok(f) => old(self).at() < old(self).fields_view().len() && f@ == old(
                    self,
                ).fields_view()[old(self).at()] && final(self).at() == old(self).at() + 1,
                Err(e) => e == ReadEntryError::Invalid && old(self).at() >= old(
                    self,
                ).fields_view().len() && final(self).at() == old(self).at(),
            },
    {
        if self.pos < self.fields.len() {
            let f = self.fields[self.pos];
            self.pos = self.pos + 1;
            Ok(f)
        } else {
            Err(ReadEntryError::Invalid)
        }
    }

    /// Yields the next field as an owned string, or `Invalid` when none
    /// remains.
    pub fn next_field_string(&mut self) -> (r: Result<String, ReadEntryError>)
        ensures
            final(self).fields_view() == old(self).fields_view(),
            match r {
                Ok(f) => old(self).at() < old(self).fields_view().len() && f@ == old(
                    self,
                ).fields_view()[old(self).at()] && final(self).at() == old(self).at() + 1,
                Err(e) => e == ReadEntryError::Invalid && old(self).at() >= old(
                    self,
                ).fields_view().len() && final(self).at() == old(self).at(),
            },
    {
        match self.next_field_str() {
            Ok(f) => Ok(f.to_owned()),
            Err(e) => Err(e),
        }
    }

    /// Consumes the next field as a required 32-bit decimal numeral.
    pub fn next_field_u32(&mut self) -> (r: Result<u32, ReadEntryError>)
        ensures
            final(self).fields_view() == old(self).fields_view(),
            r == u32_field_at(old(self).fields_view(), old(self).at()),
            final(self).at() == if old(self).at() < old(self).fields_view().len() {
                old(self).at() + 1
            } else {
                old(self).at()
            },
    {
        match self.next_field_str() {
            Ok(f) => match crate::util::parse_u32_str(f) {
                Some(v) => Ok(v),
                None => Err(ReadEntryError::ParseInt),
            },
            Err(e) => Err(e),
        }
    }

    /// Consumes the next field as an optional 32-bit decimal numeral: the
    /// empty field denotes an absent value.
    pub fn next_field_u32_opt(&mut self) -> (r: Result<Option<u32>, ReadEntryError>)
        ensures
            final(self).fields_view() == old(self).fields_view(),
            r == opt_u32_field_at(old(self).fields_view(), old(self).at()),
            final(self).at() == if old(self).at() < old(self).fields_view().len() {
                old(self).at() + 1
            } else {
                old(self).at()
            },
    {
        match self.next_field_str() {
            Ok(f) => match crate::util::maybe_parse(f) {
                Ok(opt) => Ok(opt),
                Err(e) => Err(e),
            },
            Err(e) => Err(e),
        }
    }
}

// ---------------------------------------------------------------------
// Entry: the capability interface every schema implements
// ---------------------------------------------------------------------

/// The two capabilities a record type must supply to live in an account
/// file: parse one line into a record, and serialize a record to one line.
///
/// Both directions carry full functional specifications, stated over the
/// record's mathematical view, so the generic reader and writer below can
/// promise exactly which records a file denotes.
pub trait Entry: View + Sized {
    /// What parsing one line yields, at the specification level.
    spec fn from_line_spec(line: Seq<char>) -> Result<Self::V, ReadEntryError>;

    /// The one-line serialization of this record, at the specification
    /// level.
    spec fn to_line_spec(&self) -> Seq<char>;

    /// Parses one line into a record, exactly as `from_line_spec` says.
    fn from_line(line: &str) -> (r: Result<Self, ReadEntryError>)
        ensures
            match r {
                Ok(e) => Self::from_line_spec(line@) == Ok::<Self::V, ReadEntryError>(e@),
                Err(err) => Self::from_line_spec(line@) == Err::<Self::V, ReadEntryError>(err),
            },
    ;

    /// Serializes this record to one line, exactly as `to_line_spec` says.
    fn to_line(&self) -> (r: String)
        ensures
            r@ == self.to_line_spec(),
    ;
}

/// The view of a parse result: the record is replaced by its view, the
/// error is kept.
pub open spec fn entry_res_view<T: Entry>(r: Result<T, ReadEntryError>) -> Result<
    T::V,
    ReadEntryError,
> {
    match r {
        Ok(e) => Ok(e@),
        Err(err) => Err(err),
    }
}

// ---------------------------------------------------------------------
// Reading: which records a file's text denotes
// ---------------------------------------------------------------------

/// A line the reader passes over without yielding anything: a comment
/// (first character `#`) or a line that is blank once trailing blanks are
/// stripped.
pub open spec fn skip_line(l: Seq<char>) -> bool {
    (l.len() > 0 && l[0] == '#') || trim_end_spec(l).len() == 0
}

/// The records denoted by a sequence of lines: comments and blank lines
/// contribute nothing, every other line contributes its parse result.
pub open spec fn entries_of<T: Entry>(lines: Seq<Seq<char>>) -> Seq<
    Result<T::V, ReadEntryError>,
>
    decreases lines.len(),
{
    if lines.len() == 0 {
        Seq::<Result<T::V, ReadEntryError>>::empty()
    } else if skip_line(lines.first()) {
        entries_of::<T>(lines.drop_first())
    } else {
        seq![T::from_line_spec(trim_end_spec(lines.first()))] + entries_of::<T>(
            lines.drop_first(),
        )
    }
}

/// The lines of a file's text, split at every newline.  A trailing newline
/// contributes a final empty line, which the reader then skips as blank.
pub open spec fn lines_of(content: Seq<char>) -> Seq<Seq<char>> {
    split_spec(content, '\n')
}

/// The records denoted by a file's entire text.
pub open spec fn entries_of_content<T: Entry>(content: Seq<char>) -> Seq<
    Result<T::V, ReadEntryError>,
> {
    entries_of::<T>(lines_of(content))
}

/// A file of nothing but comments and blank lines denotes no records at
/// all.
pub proof fn lemma_all_skippable_empty<T: Entry>(lines: Seq<Seq<char>>)
    requires
        forall|i: int| 0 <= i < lines.len() ==> skip_line(#[trigger] lines[i]),
    ensures
        entries_of::<T>(lines) =~= Seq::<Result<T::V, ReadEntryError>>::empty(),
    decreases lines.len(),
{
    if lines.len() > 0 {
        assert(skip_line(lines.first()));
        lemma_all_skippable_empty::<T>(lines.drop_first());
    }
}

/// Records distribute over concatenation of line sequences.
pub proof fn lemma_entries_of_append<T: Entry>(a: Seq<Seq<char>>, b: Seq<Seq<char>>)
    ensures
        entries_of::<T>(a + b) =~= entries_of::<T>(a) + entries_of::<T>(b),
    decreases a.len(),
{
    if a.len() == 0 {
        assert(a + b =~= b);
        assert(entries_of::<T>(a) =~= Seq::<Result<T::V, ReadEntryError>>::empty());
    } else {
        assert((a + b).first() == a.first());
        assert((a + b).drop_first() =~= a.drop_first() + b);
        lemma_entries_of_append::<T>(a.drop_first(), b);
    }
}

/// Appending one newline-terminated, non-skippable line to a file whose
/// text is empty or newline-terminated appends exactly that line's parse
/// result to the records the file denotes.
pub proof fn lemma_entries_append_line<T: Entry>(content: Seq<char>, line: Seq<char>)
    requires
        content.len() == 0 || content.last() == '\n',
        crate::util::free_of(line, '\n'),
        line.len() > 0,
        line[0] != '#',
        trim_end_spec(line) == line,
    ensures
        entries_of_content::<T>(content + line + seq!['\n']) =~= entries_of_content::<T>(
            content,
        ).push(T::from_line_spec(line)),
{
    let nl = seq!['\n'];
    let empty = Seq::<char>::empty();
    let two = seq![line, empty];
    let one = seq![empty];
    let zero = Seq::<Seq<char>>::empty();
    crate::util::lemma_split_append(line, empty, '\n');
    crate::util::lemma_split_free(line, '\n');
    assert(split_spec(line + nl + empty, '\n') =~~= two);
    assert(!skip_line(line));
    assert(trim_end_spec(empty) =~= empty);
    assert(skip_line(empty));
    assert(two.first() == line);
    assert(two.drop_first() =~= one);
    assert(one.first() == empty);
    assert(one.drop_first() =~= zero);
    assert(entries_of::<T>(zero) =~= Seq::<Result<T::V, ReadEntryError>>::empty());
    assert(entries_of::<T>(one) =~= Seq::<Result<T::V, ReadEntryError>>::empty());
    assert(entries_of::<T>(two) =~= seq![T::from_line_spec(line)]);
    if content.len() == 0 {
        assert(content + line + nl =~= line + nl + empty);
        assert(content =~= empty);
        assert(lines_of(content) =~= one);
        assert(entries_of_content::<T>(content) =~= Seq::<Result<T::V, ReadEntryError>>::empty());
    } else {
        let c0 = content.drop_last();
        assert(content =~= c0.push('\n'));
        assert(lines_of(content) == split_spec(c0, '\n').push(empty));
        assert(lines_of(content) =~= split_spec(c0, '\n') + one);
        lemma_entries_of_append::<T>(split_spec(c0, '\n'), one);
        assert(content + line + nl =~= c0 + nl + (line + nl + empty));
        crate::util::lemma_split_append(c0, line + nl + empty, '\n');
        assert(lines_of(content + line + nl) =~= split_spec(c0, '\n') + two);
        lemma_entries_of_append::<T>(split_spec(c0, '\n'), two);
    }
}

// ---------------------------------------------------------------------
// EntFileReader
// ---------------------------------------------------------------------

/// A single-pass, non-restartable reader over the text of one account
/// file, yielding each record (or per-record error) in file order and
/// silently passing over comments and blank lines.
pub struct EntFileReader<'a, T: Entry> {
    lines: Vec<&'a str>,
    pos: usize,
    marker: PhantomData<T>,
}

impl<'a, T: Entry> EntFileReader<'a, T> {
    /// The reader's position never passes the end of the line list.
    pub closed spec fn wf(&self) -> bool {
        self.pos <= self.lines.len()
    }

    /// The lines the reader walks over.
    pub closed spec fn lines_view(&self) -> Seq<Seq<char>> {
        self.lines.deep_view()
    }

    /// The records not yet yielded.
    pub closed spec fn remaining(&self) -> Seq<Result<T::V, ReadEntryError>> {
        entries_of::<T>(self.lines_view().skip(self.pos as int))
    }

    /// Starts a reader on a file's entire text.
    pub fn new(content: &'a str) -> (r: EntFileReader<'a, T>)
        ensures
            r.wf(),
            r.lines_view() == lines_of(content@),
            r.remaining() == entries_of_content::<T>(content@),
    {
        let lines = split_str(content, '\n');
        let r = EntFileReader { lines, pos: 0, marker: PhantomData };
        proof {
            assert(r.lines_view().skip(0) =~= r.lines_view());
        }
        r
    }

    /// Yields the next record, or `None` once every remaining line is a
    /// comment or blank.
    pub fn next(&mut self) -> (r: Option<Result<T, ReadEntryError>>)
        requires
            old(self).wf(),
        ensures
            final(self).wf(),
            final(self).lines_view() == old(self).lines_view(),
            match r {
                None => old(self).remaining().len() == 0 && final(self).remaining().len() == 0,
                Some(res) => old(self).remaining().len() > 0 && entry_res_view(res) == old(
                    self,
                ).remaining().first() && final(self).remaining() == old(
                    self,
                ).remaining().drop_first(),
            },
    {
        loop
            invariant
                self.wf(),
                self.lines_view() == old(self).lines_view(),
                self.remaining() == old(self).remaining(),
            decreases self.lines@.len() - self.pos,
        {
            if self.pos == self.lines.len() {
                proof {
                    assert(self.lines_view().skip(self.pos as int) =~= Seq::<Seq<char>>::empty());
                }
                return None;
            }
            let ghost rem_lines = self.lines_view().skip(self.pos as int);
            proof {
                assert(rem_lines.first() == self.lines_view()[self.pos as int]);
                assert(rem_lines.drop_first() =~= self.lines_view().skip(self.pos as int + 1));
            }
            let line: &'a str = self.lines[self.pos];
            let skip = if line.unicode_len() > 0 {
                line.get_char(0) == '#'
            } else {
                false
            };
            if skip {
                self.pos = self.pos + 1;
                continue ;
            }
            let trimmed = trim_end_blanks(line);
            if trimmed.unicode_len() == 0 {
                self.pos = self.pos + 1;
                continue ;
            }
            proof {
                assert(!skip_line(rem_lines.first()));
            }
            let res = T::from_line(trimmed);
            self.pos = self.pos + 1;
            return Some(res);
        }
    }
}

// ---------------------------------------------------------------------
// EntFileWriter
// ---------------------------------------------------------------------

/// An append-only writer for one account file.  Serialized records
/// accumulate in an in-memory buffer; the surrounding shell appends that
/// buffer to the file in one write and must treat a short write as the
/// hard failure `WriteError::ShortWrite`.
pub struct EntFileWriter<T: Entry> {
    buf: String,
    marker: PhantomData<T>,
}

impl<T: Entry> EntFileWriter<T> {
    /// The text appended so far.
    pub closed spec fn buffer(&self) -> Seq<char> {
        self.buf@
    }

    /// Starts a writer with an empty append buffer.
    pub fn new() -> (w: EntFileWriter<T>)
        ensures
            w.buffer() == Seq::<char>::empty(),
    {
        EntFileWriter { buf: String::new(), marker: PhantomData }
    }

    /// Appends one record: its serialized line followed by exactly one
    /// newline.
    pub fn write(&mut self, entry: &T)
        ensures
            final(self).buffer() == old(self).buffer() + entry.to_line_spec() + seq!['\n'],
    {
        let line = entry.to_line();
        self.buf.append(line.as_str());
        self.buf.append("\n");
        proof {
            reveal_strlit("\n");
            assert("\n"@ =~= seq!['\n']);
        }
    }

    /// Hands back the accumulated text so the surrounding shell can append
    /// it to the file.
    pub fn into_inner(self) -> (r: String)
        ensures
            r@ == self.buffer(),
    {
        self.buf
    }
}

/// Checks that an underlying write consumed exactly the requested byte
/// count: anything less is the hard failure `ShortWrite`.
pub fn check_full_write(requested: usize, written: usize) -> (r: Result<(), WriteError>)
    ensures
        r == if written == requested {
            Ok::<(), WriteError>(())
        } else {
            Err::<(), WriteError>(WriteError::ShortWrite)
        },
{
    if written == requested {
        Ok(())
    } else {
        Err(crate::util::short_write())
    }
}

} // verus!
