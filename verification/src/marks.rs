//! External source marks that can optionally own attached threads.
//!
//! The store keeps its marks in memory; reading and writing the JSON file that
//! persists them, canonicalizing paths and reading the clock are the caller's
//! part. Each operation that stamps a time takes it as `now`.

use vstd::prelude::*;
use vstd::string::StringSliceAdditionalSpecFns;
use vstd::utf8::encode_utf8;

use crate::anchoring::{
    OffsetError, dist, lemma_nearest_match, line_hash, line_hash_spec, line_hashes, line_text_of, line_text_or_empty,
    nearest_line, nearest_match, offset_check, validate_offset,
};
use crate::paths::{same_path, same_path_spec};
use crate::text::{
    chars_of, decimal, decimal_string, opt_chars, line_at, line_at_offset, lines, lines_of, owned, str_eq,
    trim, trim_range, truncate, truncate_chars, views,
};

verus! {

/// Longest line preview kept on a mark, in characters.
pub const LINE_PREVIEW_MAX_CHARS: usize = 160;

/// Parameters for creating an external mark.
#[derive(Debug, Clone)]
pub struct MarkCreateParams {
    /// Workspace root.
    pub workspace: String,
    /// Source file path.
    pub file: String,
    /// Cursor byte offset in `content`.
    pub offset: usize,
    /// Live buffer content.
    pub content: String,
    /// Optional attached thread id.
    pub thread_id: Option<String>,
}

/// Parameters for listing external marks.
#[derive(Debug, Clone)]
pub struct MarkListParams {
    /// Workspace root.
    pub workspace: String,
    /// Optional source file filter.
    pub file: Option<String>,
    /// Optional live buffer content used for reanchoring.
    pub content: Option<String>,
}

/// Parameters for deleting an external mark.
#[derive(Debug, Clone)]
pub struct MarkDeleteParams {
    /// Mark id.
    pub mark_id: String,
    /// Whether an attached thread may be deleted with the mark.
    pub delete_attached_thread: bool,
}

/// Parameters for moving to the next or previous mark in one file.
#[derive(Debug, Clone)]
pub struct MarkStepParams {
    /// Workspace root.
    pub workspace: String,
    /// Source file path.
    pub file: String,
    /// Current 1-based cursor line.
    pub current_line: usize,
    /// Optional live buffer content used for reanchoring before selection.
    pub content: Option<String>,
}

/// External source mark.
#[derive(Debug, Clone, PartialEq, Eq)]
pub struct MarkAnchor {
    /// Stable mark id.
    pub mark_id: String,
    /// Workspace root.
    pub workspace: String,
    /// Source file path.
    pub file: String,
    /// Original 1-based line.
    pub original_line: usize,
    /// Current 1-based line after reanchor.
    pub current_line: usize,
    /// Original byte offset.
    pub byte_offset: usize,
    /// Hash of normalized anchored line.
    pub line_hash: String,
    /// Bounded anchored line preview.
    pub line_preview: String,
    /// Optional attached thread id.
    pub thread_id: Option<String>,
    /// `open`, `linked`, or `stale`.
    pub status: String,
    /// Creation timestamp as Unix seconds.
    pub created_at: u64,
    /// Update timestamp as Unix seconds.
    pub updated_at: u64,
}

/// The mathematical content of a mark.
pub struct MarkView {
    /// Stable mark id.
    pub mark_id: Seq<char>,
    /// Workspace root.
    pub workspace: Seq<char>,
    /// Source file path.
    pub file: Seq<char>,
    /// Original 1-based line.
    pub original_line: usize,
    /// Current 1-based line.
    pub current_line: usize,
    /// Original byte offset.
    pub byte_offset: usize,
    /// Line hash.
    pub line_hash: Seq<char>,
    /// Line preview.
    pub line_preview: Seq<char>,
    /// Attached thread id.
    pub thread_id: Option<Seq<char>>,
    /// Status.
    pub status: Seq<char>,
    /// Creation time.
    pub created_at: u64,
    /// Update time.
    pub updated_at: u64,
}

impl View for MarkAnchor {
    type V = MarkView;

    open spec fn view(&self) -> MarkView {
        MarkView {
            mark_id: self.mark_id@,
            workspace: self.workspace@,
            file: self.file@,
            original_line: self.original_line,
            current_line: self.current_line,
            byte_offset: self.byte_offset,
            line_hash: self.line_hash@,
            line_preview: self.line_preview@,
            thread_id: opt_chars(self.thread_id),
            status: self.status@,
            created_at: self.created_at,
            updated_at: self.updated_at,
        }
    }
}

/// A copy of an optional string.
pub fn copy_opt(o: &Option<String>) -> (r: Option<String>)
    ensures
        opt_chars(r) == opt_chars(*o),
{
    match o {
        Some(s) => Some(s.clone()),
        None => None,
    }
}

impl MarkAnchor {
    /// A field-by-field copy of this mark.
    pub fn duplicate(&self) -> (r: MarkAnchor)
        ensures
            r@ == self@,
    {
        MarkAnchor {
            mark_id: self.mark_id.clone(),
            workspace: self.workspace.clone(),
            file: self.file.clone(),
            original_line: self.original_line,
            current_line: self.current_line,
            byte_offset: self.byte_offset,
            line_hash: self.line_hash.clone(),
            line_preview: self.line_preview.clone(),
            thread_id: copy_opt(&self.thread_id),
            status: self.status.clone(),
            created_at: self.created_at,
            updated_at: self.updated_at,
        }
    }
}

/// The views of a sequence of marks.
pub open spec fn mark_views(ms: Seq<MarkAnchor>) -> Seq<MarkView> {
    Seq::new(ms.len(), |i: int| ms[i]@)
}

/// Result of creating an external mark.
#[derive(Debug, Clone)]
pub struct MarkCreateResult {
    /// Created mark.
    pub mark: MarkAnchor,
}

/// Result of listing external marks.
#[derive(Debug, Clone)]
pub struct MarkListResult {
    /// Matching marks.
    pub marks: Vec<MarkAnchor>,
}

/// Result of deleting an external mark.
#[derive(Debug, Clone)]
pub struct MarkDeleteResult {
    /// Deleted mark, if it existed.
    pub mark: Option<MarkAnchor>,
    /// Whether an attached thread was requested and deleted by the caller.
    pub deleted_thread: bool,
}

/// Result of moving to a next or previous mark.
#[derive(Debug, Clone)]
pub struct MarkStepResult {
    /// Selected mark, if one exists.
    pub mark: Option<MarkAnchor>,
}

/// Why a mark operation was refused.
#[derive(Debug, Clone, PartialEq, Eq)]
pub enum MarkError {
    /// The cursor offset does not name a place in the buffer.
    Offset(OffsetError),
    /// The mark has an attached thread and the caller did not allow deleting it.
    AttachedThread(String),
}

impl MarkError {
    /// The message shown to a user for this error.
    pub fn message(&self) -> (r: String)
        ensures
            r@ == (match self {
                MarkError::Offset(e) => crate::anchoring::offset_error_text(*e),
                MarkError::AttachedThread(id) => "mark "@ + id@
                    + " has an attached thread; pass delete_attached_thread to remove both"@,
            }),
    {
        match self {
            MarkError::Offset(e) => e.message(),
            MarkError::AttachedThread(id) => {
                let mut m = owned("mark ");
                m.push_str(id.as_str());
                m.push_str(" has an attached thread; pass delete_attached_thread to remove both");
                m
            },
        }
    }
}

/// JSON-backed mark store, held in memory.
#[derive(Debug, Clone)]
pub struct MarkStore {
    path: String,
    marks: Vec<MarkAnchor>,
    process_id: u32,
    counter: u64,
}

/// The id of a mark made at `now` by process `pid` as its `counter`-th mark.
pub open spec fn mark_id_for(now: u64, pid: u32, counter: u64) -> Seq<char> {
    "mark-"@ + decimal(now as nat) + "-"@ + decimal(pid as nat) + "-"@ + decimal(counter as nat)
}

/// The counter after one more mark, wrapping as an atomic counter does.
pub open spec fn next_counter(c: u64) -> u64 {
    if c == u64::MAX {
        0
    } else {
        (c + 1) as u64
    }
}

/// The mark created at byte `offset` of `content`: its line, that line's hash
/// and trimmed preview, status `open`, created and updated at `now`.
pub open spec fn new_mark(
    id: Seq<char>,
    workspace: Seq<char>,
    file: Seq<char>,
    offset: usize,
    content: Seq<char>,
    thread_id: Option<Seq<char>>,
    now: u64,
) -> MarkView {
    let line = line_at(encode_utf8(content), offset as int);
    let text = line_text_or_empty(content, line as int);
    MarkView {
        mark_id: id,
        workspace,
        file,
        original_line: line as usize,
        current_line: line as usize,
        byte_offset: offset,
        line_hash: line_hash_spec(text),
        line_preview: truncate_chars(trim(text), LINE_PREVIEW_MAX_CHARS as nat),
        thread_id,
        status: "open"@,
        created_at: now,
        updated_at: now,
    }
}

/// The line a mark moves to against `content`: the nearest line with its hash,
/// or its current line when none has it.
pub open spec fn reanchor_line(m: MarkView, content: Seq<char>) -> int {
    match nearest_match(line_hashes(content), m.line_hash, m.current_line as int) {
        Some(l) => l,
        None => m.current_line as int,
    }
}

/// The status a mark gets against `content`: `stale` when no line has its
/// hash; when one does, a stale mark becomes `linked` or `open` by whether it
/// has a thread, and any other status stays.
pub open spec fn reanchor_status(m: MarkView, content: Seq<char>) -> Seq<char> {
    match nearest_match(line_hashes(content), m.line_hash, m.current_line as int) {
        Some(l) => if m.status == "stale"@ {
            if m.thread_id is Some {
                "linked"@
            } else {
                "open"@
            }
        } else {
            m.status
        },
        None => "stale"@,
    }
}

/// Whether reanchoring against `content` changes the line or status.
pub open spec fn reanchor_changes(m: MarkView, content: Seq<char>) -> bool {
    reanchor_line(m, content) != m.current_line || reanchor_status(m, content) != m.status
}

/// A mark reanchored against `content`, stamped with `now` when it changed.
pub open spec fn reanchored(m: MarkView, content: Seq<char>, now: u64) -> MarkView {
    MarkView {
        current_line: reanchor_line(m, content) as usize,
        status: reanchor_status(m, content),
        updated_at: if reanchor_changes(m, content) {
            now
        } else {
            m.updated_at
        },
        ..m
    }
}

/// Whether a mark lies in `workspace` and, if one is given, in `file`.
pub open spec fn in_scope(m: MarkView, workspace: Seq<char>, file: Option<Seq<char>>) -> bool {
    same_path_spec(m.workspace, workspace) && match file {
        Some(f) => same_path_spec(m.file, f),
        None => true,
    }
}

/// The marks of `ms` that lie in scope, in order.
pub open spec fn select(ms: Seq<MarkView>, workspace: Seq<char>, file: Option<Seq<char>>) -> Seq<MarkView>
    decreases ms.len(),
{
    if ms.len() == 0 {
        seq![]
    } else {
        select(ms.drop_last(), workspace, file) + if in_scope(ms.last(), workspace, file) {
            seq![ms.last()]
        } else {
            seq![]
        }
    }
}

/// The store after listing: when both a file and content are given, every
/// mark of that workspace and file is reanchored against the content.
pub open spec fn listed_store(
    ms: Seq<MarkView>,
    workspace: Seq<char>,
    file: Option<Seq<char>>,
    content: Option<Seq<char>>,
    now: u64,
) -> Seq<MarkView> {
    match (file, content) {
        (Some(f), Some(c)) => ms.map_values(
            |m: MarkView|
                if in_scope(m, workspace, Some(f)) {
                    reanchored(m, c, now)
                } else {
                    m
                },
        ),
        _ => ms,
    }
}

/// Whether `i` is the first index of a mark with id `id`.
pub open spec fn first_with_id(ms: Seq<MarkView>, id: Seq<char>, i: int) -> bool {
    &&& 0 <= i < ms.len()
    &&& ms[i].mark_id == id
    &&& forall|j: int| 0 <= j < i ==> ms[j].mark_id != id
}

/// Whether some mark has id `id`.
pub open spec fn has_id(ms: Seq<MarkView>, id: Seq<char>) -> bool {
    exists|i: int| 0 <= i < ms.len() && ms[i].mark_id == id
}

/// A mark with `thread_id` attached, status `linked`, updated at `now`.
pub open spec fn linked(m: MarkView, thread_id: Seq<char>, now: u64) -> MarkView {
    MarkView { thread_id: Some(thread_id), status: "linked"@, updated_at: now, ..m }
}

/// A mark with its thread detached: no thread, `stale` stays, any other
/// status becomes `open`, updated at `now`.
pub open spec fn unlinked(m: MarkView, now: u64) -> MarkView {
    MarkView {
        thread_id: None,
        status: if m.status == "stale"@ {
            "stale"@
        } else {
            "open"@
        },
        updated_at: now,
        ..m
    }
}

/// Whether a mark has the thread `thread_id` attached.
pub open spec fn has_thread(m: MarkView, thread_id: Seq<char>) -> bool {
    m.thread_id == Some(thread_id)
}

/// The store after detaching `thread_id` from every mark that has it.
pub open spec fn unlinked_store(ms: Seq<MarkView>, thread_id: Seq<char>, now: u64) -> Seq<MarkView> {
    ms.map_values(|m: MarkView| if has_thread(m, thread_id) { unlinked(m, now) } else { m })
}

/// The marks that had `thread_id`, after detaching it, in order.
pub open spec fn detached(ms: Seq<MarkView>, thread_id: Seq<char>, now: u64) -> Seq<MarkView>
    decreases ms.len(),
{
    if ms.len() == 0 {
        seq![]
    } else {
        detached(ms.drop_last(), thread_id, now) + if has_thread(ms.last(), thread_id) {
            seq![unlinked(ms.last(), now)]
        } else {
            seq![]
        }
    }
}


/// Of the marks after `line`, those on the least line, the first of them.
pub open spec fn pick_next(ms: Seq<MarkView>, line: int) -> Option<MarkView>
    decreases ms.len(),
{
    if ms.len() == 0 {
        None
    } else {
        let b = pick_next(ms.drop_last(), line);
        let m = ms.last();
        if m.current_line > line && (b is None || m.current_line < b->0.current_line) {
            Some(m)
        } else {
            b
        }
    }
}

/// Of all marks, those on the least line, the first of them.
pub open spec fn pick_lowest(ms: Seq<MarkView>) -> Option<MarkView>
    decreases ms.len(),
{
    if ms.len() == 0 {
        None
    } else {
        let b = pick_lowest(ms.drop_last());
        let m = ms.last();
        if b is None || m.current_line < b->0.current_line {
            Some(m)
        } else {
            b
        }
    }
}

/// Of the marks before `line`, those on the greatest line, the last of them.
pub open spec fn pick_prev(ms: Seq<MarkView>, line: int) -> Option<MarkView>
    decreases ms.len(),
{
    if ms.len() == 0 {
        None
    } else {
        let b = pick_prev(ms.drop_last(), line);
        let m = ms.last();
        if m.current_line < line && (b is None || m.current_line >= b->0.current_line) {
            Some(m)
        } else {
            b
        }
    }
}

/// Of all marks, those on the greatest line, the last of them.
pub open spec fn pick_highest(ms: Seq<MarkView>) -> Option<MarkView>
    decreases ms.len(),
{
    if ms.len() == 0 {
        None
    } else {
        let b = pick_highest(ms.drop_last());
        let m = ms.last();
        if b is None || m.current_line >= b->0.current_line {
            Some(m)
        } else {
            b
        }
    }
}

/// The mark `next` moves to: the next one after `line`, wrapping to the lowest.
pub open spec fn step_next(ms: Seq<MarkView>, line: int) -> Option<MarkView> {
    match pick_next(ms, line) {
        Some(m) => Some(m),
        None => pick_lowest(ms),
    }
}

/// The mark `prev` moves to: the previous one before `line`, wrapping to the highest.
pub open spec fn step_prev(ms: Seq<MarkView>, line: int) -> Option<MarkView> {
    match pick_prev(ms, line) {
        Some(m) => Some(m),
        None => pick_highest(ms),
    }
}

/// Reanchor one mark against `content`.
fn reanchor(mark: &mut MarkAnchor, content: &str, now: u64) -> (changed: bool)
    ensures
        final(mark)@ == reanchored(old(mark)@, content@, now),
        changed == reanchor_changes(old(mark)@, content@),
{
    let best = nearest_line(content, mark.line_hash.as_str(), mark.current_line);
    let old_line = mark.current_line;
    let old_status = mark.status.clone();
    let was_stale = str_eq(mark.status.as_str(), "stale");
    match best {
        Some(line) => {
            mark.current_line = line;
            if was_stale {
                mark.status = if mark.thread_id.is_some() {
                    owned("linked")
                } else {
                    owned("open")
                };
            }
        },
        None => {
            mark.status = owned("stale");
        },
    }
    let changed = old_line != mark.current_line || !str_eq(old_status.as_str(), mark.status.as_str());
    if changed {
        mark.updated_at = now;
    }
    changed
}

/// Whether a mark lies in `workspace` and, if one is given, in `file`.
fn mark_in_scope(m: &MarkAnchor, workspace: &str, file: &Option<String>) -> (b: bool)
    ensures
        b == in_scope(m@, workspace@, opt_chars(*file)),
{
    if !same_path(m.workspace.as_str(), workspace) {
        return false;
    }
    match file {
        Some(f) => same_path(m.file.as_str(), f.as_str()),
        None => true,
    }
}

impl MarkStore {
    /// The marks the store holds, in order.
    pub closed spec fn spec_marks(&self) -> Seq<MarkView> {
        mark_views(self.marks@)
    }

    /// The path of the file that persists the store.
    pub closed spec fn spec_path(&self) -> Seq<char> {
        self.path@
    }

    /// The process id written into new mark ids.
    pub closed spec fn spec_process_id(&self) -> u32 {
        self.process_id
    }

    /// How many marks this store has created, wrapping.
    pub closed spec fn spec_counter(&self) -> u64 {
        self.counter
    }

    /// Create a store at the supplied runtime path.
    pub fn new(path: String) -> (s: Self)
        ensures
            s.spec_marks() == Seq::<MarkView>::empty(),
            s.spec_path() == path@,
            s.spec_process_id() == 0,
            s.spec_counter() == 0,
    {
        let s = MarkStore { path, marks: Vec::new(), process_id: 0, counter: 0 };
        assert(s.spec_marks() =~= Seq::<MarkView>::empty());
        s
    }

    /// A store holding `marks`, read from `path`, for process `process_id`.
    pub fn with_marks(path: String, marks: Vec<MarkAnchor>, process_id: u32) -> (s: Self)
        ensures
            s.spec_marks() == mark_views(marks@),
            s.spec_path() == path@,
            s.spec_process_id() == process_id,
            s.spec_counter() == 0,
    {
        MarkStore { path, marks, process_id, counter: 0 }
    }

    /// The path of the file that persists the store.
    pub fn path(&self) -> (r: &str)
        ensures
            r@ == self.spec_path(),
    {
        self.path.as_str()
    }

    /// The marks the store holds, in order.
    pub fn marks(&self) -> (r: &Vec<MarkAnchor>)
        ensures
            mark_views(r@) == self.spec_marks(),
    {
        &self.marks
    }

    /// Create a mark from RPC parameters.
    pub fn create(&mut self, params: &MarkCreateParams, now: u64) -> (r: Result<MarkCreateResult, MarkError>)
        requires
            encode_utf8(params.content@).len() < usize::MAX,
        ensures
            (match r {
                Ok(res) => {
                    &&& offset_check(params.content@, params.offset as int) is Ok
                    &&& res.mark@ == new_mark(
                        mark_id_for(now, old(self).spec_process_id(), old(self).spec_counter()),
                        params.workspace@,
                        params.file@,
                        params.offset,
                        params.content@,
                        opt_chars(params.thread_id),
                        now,
                    )
                    &&& final(self).spec_marks() == old(self).spec_marks().push(res.mark@)
                    &&& final(self).spec_counter() == next_counter(old(self).spec_counter())
                },
                Err(e) => {
                    &&& offset_check(params.content@, params.offset as int) matches Err(o)
                    &&& e == MarkError::Offset(o)
                    &&& final(self).spec_marks() == old(self).spec_marks()
                    &&& final(self).spec_counter() == old(self).spec_counter()
                },
            }),
            final(self).spec_path() == old(self).spec_path(),
            final(self).spec_process_id() == old(self).spec_process_id(),
    {
        let mark = self.create_mark(
            params.workspace.as_str(),
            params.file.as_str(),
            params.offset,
            params.content.as_str(),
            copy_opt(&params.thread_id),
            now,
        )?;
        Ok(MarkCreateResult { mark })
    }

    /// Create a mark with explicit parts, used when creating a thread.
    pub fn create_mark(
        &mut self,
        workspace: &str,
        file: &str,
        offset: usize,
        content: &str,
        thread_id: Option<String>,
        now: u64,
    ) -> (r: Result<MarkAnchor, MarkError>)
        requires
            content.spec_bytes().len() < usize::MAX,
        ensures
            (match r {
                Ok(m) => {
                    &&& offset_check(content@, offset as int) is Ok
                    &&& m@ == new_mark(
                        mark_id_for(now, old(self).spec_process_id(), old(self).spec_counter()),
                        workspace@,
                        file@,
                        offset,
                        content@,
                        opt_chars(thread_id),
                        now,
                    )
                    &&& final(self).spec_marks() == old(self).spec_marks().push(m@)
                    &&& final(self).spec_counter() == next_counter(old(self).spec_counter())
                },
                Err(e) => {
                    &&& offset_check(content@, offset as int) matches Err(o)
                    &&& e == MarkError::Offset(o)
                    &&& final(self).spec_marks() == old(self).spec_marks()
                    &&& final(self).spec_counter() == old(self).spec_counter()
                },
            }),
            final(self).spec_path() == old(self).spec_path(),
            final(self).spec_process_id() == old(self).spec_process_id(),
    {
        match validate_offset(content, offset) {
            Ok(()) => {},
            Err(e) => {
                return Err(MarkError::Offset(e));
            },
        }
        let line = line_at_offset(content, offset);
        let cs = chars_of(content);
        let ls = lines_of(cs.as_slice());
        let text = line_text_of(&ls, line);
        let (a, b) = trim_range(text.as_slice());
        let trimmed: Vec<char> = {
            let mut t: Vec<char> = Vec::new();
            let mut k: usize = a;
            while k < b
                invariant
                    a <= k <= b <= text@.len(),
                    t@ == text@.subrange(a as int, k as int),
                decreases b - k,
            {
                t.push(text[k]);
                k = k + 1;
                assert(t@ =~= text@.subrange(a as int, k as int));
            }
            t
        };
        let mut id = owned("mark-");
        id.push_str(decimal_string(now).as_str());
        id.push_str("-");
        id.push_str(decimal_string(self.process_id as u64).as_str());
        id.push_str("-");
        id.push_str(decimal_string(self.counter).as_str());
        let mark = MarkAnchor {
            mark_id: id,
            workspace: owned(workspace),
            file: owned(file),
            original_line: line,
            current_line: line,
            byte_offset: offset,
            line_hash: line_hash(text.as_slice()),
            line_preview: truncate(trimmed.as_slice(), LINE_PREVIEW_MAX_CHARS),
            thread_id,
            status: owned("open"),
            created_at: now,
            updated_at: now,
        };
        let copy = mark.duplicate();
        let ghost before = self.marks@;
        self.marks.push(mark);
        assert(mark_views(self.marks@) =~= mark_views(before).push(copy@));
        self.counter = if self.counter == u64::MAX {
            0
        } else {
            self.counter + 1
        };
        Ok(copy)
    }
}


/// The view of an optional mark.
pub open spec fn opt_mark(o: Option<MarkAnchor>) -> Option<MarkView> {
    match o {
        Some(m) => Some(m@),
        None => None,
    }
}

impl MarkStore {
    /// The store's marks after listing, reanchoring where both a file and
    /// content are given.
    fn reanchor_in_scope(&mut self, workspace: &str, file: &Option<String>, content: &Option<String>, now: u64)
        ensures
            final(self).spec_marks() == listed_store(
                old(self).spec_marks(),
                workspace@,
                opt_chars(*file),
                opt_chars(*content),
                now,
            ),
            final(self).spec_path() == old(self).spec_path(),
            final(self).spec_process_id() == old(self).spec_process_id(),
            final(self).spec_counter() == old(self).spec_counter(),
    {
        let ghost before = mark_views(self.marks@);
        match (file, content) {
            (Some(f), Some(c)) => {
                let mut out: Vec<MarkAnchor> = Vec::new();
                let mut i: usize = 0;
                while i < self.marks.len()
                    invariant
                        i <= self.marks@.len(),
                        before == mark_views(self.marks@),
                        out@.len() == i,
                        forall|j: int|
                            0 <= j < i ==> #[trigger] out@[j]@ == (if in_scope(
                                before[j],
                                workspace@,
                                Some(f@),
                            ) {
                                reanchored(before[j], c@, now)
                            } else {
                                before[j]
                            }),
                    decreases self.marks@.len() - i,
                {
                    let mut m = self.marks[i].duplicate();
                    let fo: Option<String> = Some(f.clone());
                    if mark_in_scope(&m, workspace, &fo) {
                        reanchor(&mut m, c.as_str(), now);
                    }
                    out.push(m);
                    i = i + 1;
                }
                self.marks = out;
                assert(mark_views(self.marks@) =~= listed_store(
                    before,
                    workspace@,
                    opt_chars(*file),
                    opt_chars(*content),
                    now,
                ));
            },
            _ => {},
        }
    }

    /// The marks of the store in scope, in order.
    fn select_marks(&self, workspace: &str, file: &Option<String>) -> (r: Vec<MarkAnchor>)
        ensures
            mark_views(r@) == select(self.spec_marks(), workspace@, opt_chars(*file)),
    {
        let ghost all = mark_views(self.marks@);
        let mut out: Vec<MarkAnchor> = Vec::new();
        let mut i: usize = 0;
        while i < self.marks.len()
            invariant
                i <= self.marks@.len(),
                all == mark_views(self.marks@),
                mark_views(out@) == select(all.take(i as int), workspace@, opt_chars(*file)),
            decreases self.marks@.len() - i,
        {
            assert(all.take(i + 1).drop_last() =~= all.take(i as int));
            assert(all.take(i + 1).last() == all[i as int]);
            let ghost prev = out@;
            if mark_in_scope(&self.marks[i], workspace, file) {
                let m = self.marks[i].duplicate();
                out.push(m);
                assert(mark_views(out@) =~= mark_views(prev).push(all[i as int]));
            }
            i = i + 1;
        }
        assert(all.take(self.marks@.len() as int) =~= all);
        out
    }

    /// List marks, optionally filtered and reanchored against live content.
    pub fn list(&mut self, params: &MarkListParams, now: u64) -> (r: MarkListResult)
        ensures
            final(self).spec_marks() == listed_store(
                old(self).spec_marks(),
                params.workspace@,
                opt_chars(params.file),
                opt_chars(params.content),
                now,
            ),
            mark_views(r.marks@) == select(
                final(self).spec_marks(),
                params.workspace@,
                opt_chars(params.file),
            ),
            final(self).spec_path() == old(self).spec_path(),
            final(self).spec_process_id() == old(self).spec_process_id(),
            final(self).spec_counter() == old(self).spec_counter(),
    {
        self.reanchor_in_scope(params.workspace.as_str(), &params.file, &params.content, now);
        let marks = self.select_marks(params.workspace.as_str(), &params.file);
        MarkListResult { marks }
    }

    /// The index of the first mark with id `id`.
    fn position(&self, id: &str) -> (r: Option<usize>)
        ensures
            (match r {
                Some(i) => first_with_id(self.spec_marks(), id@, i as int),
                None => !has_id(self.spec_marks(), id@),
            }),
    {
        let ghost all = mark_views(self.marks@);
        let mut i: usize = 0;
        while i < self.marks.len()
            invariant
                i <= self.marks@.len(),
                all == mark_views(self.marks@),
                forall|j: int| 0 <= j < i ==> all[j].mark_id != id@,
            decreases self.marks@.len() - i,
        {
            if str_eq(self.marks[i].mark_id.as_str(), id) {
                return Some(i);
            }
            i = i + 1;
        }
        None
    }

    /// Delete a mark by id.
    pub fn delete(&mut self, params: &MarkDeleteParams) -> (r: Result<MarkDeleteResult, MarkError>)
        ensures
            (match r {
                Ok(res) => match res.mark {
                    None => {
                        &&& !has_id(old(self).spec_marks(), params.mark_id@)
                        &&& !res.deleted_thread
                        &&& final(self).spec_marks() == old(self).spec_marks()
                    },
                    Some(m) => exists|i: int|
                        {
                            &&& first_with_id(old(self).spec_marks(), params.mark_id@, i)
                            &&& (old(self).spec_marks()[i].thread_id is None
                                || params.delete_attached_thread)
                            &&& m@ == old(self).spec_marks()[i]
                            &&& res.deleted_thread == (m@.thread_id is Some
                                && params.delete_attached_thread)
                            &&& final(self).spec_marks() == old(self).spec_marks().remove(i)
                        },
                },
                Err(e) => {
                    &&& exists|i: int|
                        first_with_id(old(self).spec_marks(), params.mark_id@, i)
                            && old(self).spec_marks()[i].thread_id is Some
                    &&& !params.delete_attached_thread
                    &&& e matches MarkError::AttachedThread(id) && id@ == params.mark_id@
                    &&& final(self).spec_marks() == old(self).spec_marks()
                },
            }),
            final(self).spec_path() == old(self).spec_path(),
            final(self).spec_process_id() == old(self).spec_process_id(),
            final(self).spec_counter() == old(self).spec_counter(),
    {
        let index = match self.position(params.mark_id.as_str()) {
            Some(i) => i,
            None => {
                return Ok(MarkDeleteResult { mark: None, deleted_thread: false });
            },
        };
        if self.marks[index].thread_id.is_some() && !params.delete_attached_thread {
            return Err(MarkError::AttachedThread(params.mark_id.clone()));
        }
        let ghost before = mark_views(self.marks@);
        let deleted = self.marks.remove(index);
        assert(mark_views(self.marks@) =~= before.remove(index as int));
        let deleted_thread = deleted.thread_id.is_some() && params.delete_attached_thread;
        Ok(MarkDeleteResult { deleted_thread, mark: Some(deleted) })
    }

    /// Attach a thread id to an existing mark.
    pub fn link_thread(&mut self, mark_id: &str, thread_id: &str, now: u64) -> (r: Option<MarkAnchor>)
        ensures
            (match r {
                None => {
                    &&& !has_id(old(self).spec_marks(), mark_id@)
                    &&& final(self).spec_marks() == old(self).spec_marks()
                },
                Some(m) => exists|i: int|
                    {
                        &&& first_with_id(old(self).spec_marks(), mark_id@, i)
                        &&& m@ == linked(old(self).spec_marks()[i], thread_id@, now)
                        &&& final(self).spec_marks() == old(self).spec_marks().update(i, m@)
                    },
            }),
            final(self).spec_path() == old(self).spec_path(),
            final(self).spec_process_id() == old(self).spec_process_id(),
            final(self).spec_counter() == old(self).spec_counter(),
    {
        let index = match self.position(mark_id) {
            Some(i) => i,
            None => {
                return None;
            },
        };
        let mut m = self.marks[index].duplicate();
        m.thread_id = Some(owned(thread_id));
        m.status = owned("linked");
        m.updated_at = now;
        let copy = m.duplicate();
        let ghost before = mark_views(self.marks@);
        self.marks.set(index, m);
        assert(mark_views(self.marks@) =~= before.update(index as int, copy@));
        Some(copy)
    }

    /// Clear any thread attachment from matching marks.
    pub fn unlink_thread(&mut self, thread_id: &str, now: u64) -> (r: Vec<MarkAnchor>)
        ensures
            final(self).spec_marks() == unlinked_store(old(self).spec_marks(), thread_id@, now),
            mark_views(r@) == detached(old(self).spec_marks(), thread_id@, now),
            final(self).spec_path() == old(self).spec_path(),
            final(self).spec_process_id() == old(self).spec_process_id(),
            final(self).spec_counter() == old(self).spec_counter(),
    {
        let ghost all = mark_views(self.marks@);
        let mut out: Vec<MarkAnchor> = Vec::new();
        let mut changed: Vec<MarkAnchor> = Vec::new();
        let mut i: usize = 0;
        while i < self.marks.len()
            invariant
                i <= self.marks@.len(),
                all == mark_views(self.marks@),
                out@.len() == i,
                forall|j: int|
                    0 <= j < i ==> #[trigger] out@[j]@ == (if has_thread(all[j], thread_id@) {
                        unlinked(all[j], now)
                    } else {
                        all[j]
                    }),
                mark_views(changed@) == detached(all.take(i as int), thread_id@, now),
            decreases self.marks@.len() - i,
        {
            assert(all.take(i + 1).drop_last() =~= all.take(i as int));
            assert(all.take(i + 1).last() == all[i as int]);
            let mut m = self.marks[i].duplicate();
            let attached = match &m.thread_id {
                Some(t) => str_eq(t.as_str(), thread_id),
                None => false,
            };
            if attached {
                let stale = str_eq(m.status.as_str(), "stale");
                m.thread_id = None;
                m.status = if stale {
                    owned("stale")
                } else {
                    owned("open")
                };
                m.updated_at = now;
                let ghost prev = changed@;
                changed.push(m.duplicate());
                assert(mark_views(changed@) =~= mark_views(prev).push(unlinked(all[i as int], now)));
            }
            out.push(m);
            i = i + 1;
        }
        self.marks = out;
        assert(all.take(all.len() as int) =~= all);
        assert(mark_views(self.marks@) =~= unlinked_store(all, thread_id@, now));
        changed
    }

    /// Return the next mark after `current_line`, wrapping within the file.
    pub fn next(&mut self, params: &MarkStepParams, now: u64) -> (r: MarkStepResult)
        ensures
            final(self).spec_marks() == listed_store(
                old(self).spec_marks(),
                params.workspace@,
                Some(params.file@),
                opt_chars(params.content),
                now,
            ),
            opt_mark(r.mark) == step_next(
                select(final(self).spec_marks(), params.workspace@, Some(params.file@)),
                params.current_line as int,
            ),
            final(self).spec_path() == old(self).spec_path(),
            final(self).spec_process_id() == old(self).spec_process_id(),
            final(self).spec_counter() == old(self).spec_counter(),
    {
        self.step(params, true, now)
    }

    /// Return the previous mark before `current_line`, wrapping within the file.
    pub fn prev(&mut self, params: &MarkStepParams, now: u64) -> (r: MarkStepResult)
        ensures
            final(self).spec_marks() == listed_store(
                old(self).spec_marks(),
                params.workspace@,
                Some(params.file@),
                opt_chars(params.content),
                now,
            ),
            opt_mark(r.mark) == step_prev(
                select(final(self).spec_marks(), params.workspace@, Some(params.file@)),
                params.current_line as int,
            ),
            final(self).spec_path() == old(self).spec_path(),
            final(self).spec_process_id() == old(self).spec_process_id(),
            final(self).spec_counter() == old(self).spec_counter(),
    {
        self.step(params, false, now)
    }

    fn step(&mut self, params: &MarkStepParams, forward: bool, now: u64) -> (r: MarkStepResult)
        ensures
            final(self).spec_marks() == listed_store(
                old(self).spec_marks(),
                params.workspace@,
                Some(params.file@),
                opt_chars(params.content),
                now,
            ),
            opt_mark(r.mark) == (if forward {
                step_next(
                    select(final(self).spec_marks(), params.workspace@, Some(params.file@)),
                    params.current_line as int,
                )
            } else {
                step_prev(
                    select(final(self).spec_marks(), params.workspace@, Some(params.file@)),
                    params.current_line as int,
                )
            }),
            final(self).spec_path() == old(self).spec_path(),
            final(self).spec_process_id() == old(self).spec_process_id(),
            final(self).spec_counter() == old(self).spec_counter(),
    {
        let list = self.list(
            &MarkListParams {
                workspace: params.workspace.clone(),
                file: Some(params.file.clone()),
                content: copy_opt(&params.content),
            },
            now,
        );
        let marks = list.marks;
        let mark = if forward {
            match pick_after(&marks, params.current_line) {
                Some(m) => Some(m),
                None => pick_extreme(&marks, true),
            }
        } else {
            match pick_before(&marks, params.current_line) {
                Some(m) => Some(m),
                None => pick_extreme(&marks, false),
            }
        };
        MarkStepResult { mark }
    }
}

/// The first mark on the least line after `line`.
fn pick_after(ms: &Vec<MarkAnchor>, line: usize) -> (r: Option<MarkAnchor>)
    ensures
        opt_mark(r) == pick_next(mark_views(ms@), line as int),
{
    let ghost all = mark_views(ms@);
    let mut best: Option<MarkAnchor> = None;
    let mut i: usize = 0;
    while i < ms.len()
        invariant
            i <= ms@.len(),
            all == mark_views(ms@),
            opt_mark(best) == pick_next(all.take(i as int), line as int),
        decreases ms@.len() - i,
    {
        assert(all.take(i + 1).drop_last() =~= all.take(i as int));
        assert(all.take(i + 1).last() == all[i as int]);
        let l = ms[i].current_line;
        let better = match &best {
            None => true,
            Some(b) => l < b.current_line,
        };
        if l > line && better {
            best = Some(ms[i].duplicate());
        }
        i = i + 1;
    }
    assert(all.take(ms@.len() as int) =~= all);
    best
}

/// The last mark on the greatest line before `line`.
fn pick_before(ms: &Vec<MarkAnchor>, line: usize) -> (r: Option<MarkAnchor>)
    ensures
        opt_mark(r) == pick_prev(mark_views(ms@), line as int),
{
    let ghost all = mark_views(ms@);
    let mut best: Option<MarkAnchor> = None;
    let mut i: usize = 0;
    while i < ms.len()
        invariant
            i <= ms@.len(),
            all == mark_views(ms@),
            opt_mark(best) == pick_prev(all.take(i as int), line as int),
        decreases ms@.len() - i,
    {
        assert(all.take(i + 1).drop_last() =~= all.take(i as int));
        assert(all.take(i + 1).last() == all[i as int]);
        let l = ms[i].current_line;
        let better = match &best {
            None => true,
            Some(b) => l >= b.current_line,
        };
        if l < line && better {
            best = Some(ms[i].duplicate());
        }
        i = i + 1;
    }
    assert(all.take(ms@.len() as int) =~= all);
    best
}

/// The first mark on the least line (`lowest`) or the last on the greatest.
fn pick_extreme(ms: &Vec<MarkAnchor>, lowest: bool) -> (r: Option<MarkAnchor>)
    ensures
        opt_mark(r) == (if lowest {
            pick_lowest(mark_views(ms@))
        } else {
            pick_highest(mark_views(ms@))
        }),
{
    let ghost all = mark_views(ms@);
    let mut best: Option<MarkAnchor> = None;
    let mut i: usize = 0;
    while i < ms.len()
        invariant
            i <= ms@.len(),
            all == mark_views(ms@),
            opt_mark(best) == (if lowest {
                pick_lowest(all.take(i as int))
            } else {
                pick_highest(all.take(i as int))
            }),
        decreases ms@.len() - i,
    {
        assert(all.take(i + 1).drop_last() =~= all.take(i as int));
        assert(all.take(i + 1).last() == all[i as int]);
        let l = ms[i].current_line;
        let better = match &best {
            None => true,
            Some(b) => if lowest {
                l < b.current_line
            } else {
                l >= b.current_line
            },
        };
        if better {
            best = Some(ms[i].duplicate());
        }
        i = i + 1;
    }
    assert(all.take(ms@.len() as int) =~= all);
    best
}

/// `pick_next` picks a mark of `ms` on a line after `line`, and one exactly
/// when such a mark exists; no mark after `line` lies on a lower line.
proof fn lemma_pick_next(ms: Seq<MarkView>, line: int)
    ensures
        (match pick_next(ms, line) {
            Some(m) => {
                &&& exists|i: int| 0 <= i < ms.len() && ms[i] == m
                &&& m.current_line > line
                &&& forall|k: int|
                    0 <= k < ms.len() && #[trigger] ms[k].current_line > line ==> m.current_line
                        <= ms[k].current_line
            },
            None => forall|k: int| 0 <= k < ms.len() ==> #[trigger] ms[k].current_line <= line,
        }),
    decreases ms.len(),
{
    if ms.len() > 0 {
        let p = ms.drop_last();
        let n = ms.len() - 1;
        lemma_pick_next(p, line);
        assert forall|k: int| 0 <= k < p.len() implies #[trigger] p[k] == ms[k] by {}
        let b = pick_next(p, line);
        let last = ms[n];
        assert(last == ms.last());
        if last.current_line > line && (b is None || last.current_line < b->0.current_line) {
            assert(pick_next(ms, line) == Some(last));
            assert forall|k: int| 0 <= k < ms.len() && #[trigger] ms[k].current_line > line
                implies last.current_line <= ms[k].current_line by {
                if k < n {
                    assert(p[k].current_line > line);
                }
            }
        } else {
            assert(pick_next(ms, line) == b);
            match b {
                Some(bm) => {
                    let i = choose|i: int| 0 <= i < p.len() && p[i] == bm;
                    assert(ms[i] == bm);
                    assert forall|k: int| 0 <= k < ms.len() && #[trigger] ms[k].current_line > line
                        implies bm.current_line <= ms[k].current_line by {
                        if k < n {
                            assert(p[k].current_line > line);
                        }
                    }
                },
                None => {
                    assert forall|k: int| 0 <= k < ms.len() implies #[trigger] ms[k].current_line
                        <= line by {
                        if k < n {
                            assert(p[k].current_line <= line);
                        }
                    }
                },
            }
        }
    }
}

/// `pick_lowest` picks a mark of `ms` on the least line, and one exactly when
/// `ms` is not empty.
proof fn lemma_pick_lowest(ms: Seq<MarkView>)
    ensures
        (match pick_lowest(ms) {
            Some(m) => {
                &&& exists|i: int| 0 <= i < ms.len() && ms[i] == m
                &&& forall|k: int| 0 <= k < ms.len() ==> m.current_line <= #[trigger] ms[k].current_line
            },
            None => ms.len() == 0,
        }),
    decreases ms.len(),
{
    if ms.len() > 0 {
        let p = ms.drop_last();
        let n = ms.len() - 1;
        lemma_pick_lowest(p);
        assert forall|k: int| 0 <= k < p.len() implies #[trigger] p[k] == ms[k] by {}
        let b = pick_lowest(p);
        let last = ms[n];
        assert(last == ms.last());
        if b is None || last.current_line < b->0.current_line {
            assert(pick_lowest(ms) == Some(last));
            assert forall|k: int| 0 <= k < ms.len() implies last.current_line
                <= #[trigger] ms[k].current_line by {
                if k < n {
                    assert(p[k].current_line == ms[k].current_line);
                }
            }
        } else {
            let bm = b->0;
            assert(pick_lowest(ms) == Some(bm));
            let i = choose|i: int| 0 <= i < p.len() && p[i] == bm;
            assert(ms[i] == bm);
            assert forall|k: int| 0 <= k < ms.len() implies bm.current_line
                <= #[trigger] ms[k].current_line by {
                if k < n {
                    assert(p[k].current_line == ms[k].current_line);
                }
            }
        }
    }
}

/// `pick_prev` picks a mark of `ms` on a line before `line`, and one exactly
/// when such a mark exists; no mark before `line` lies on a higher line.
proof fn lemma_pick_prev(ms: Seq<MarkView>, line: int)
    ensures
        (match pick_prev(ms, line) {
            Some(m) => {
                &&& exists|i: int| 0 <= i < ms.len() && ms[i] == m
                &&& m.current_line < line
                &&& forall|k: int|
                    0 <= k < ms.len() && #[trigger] ms[k].current_line < line ==> ms[k].current_line
                        <= m.current_line
            },
            None => forall|k: int| 0 <= k < ms.len() ==> #[trigger] ms[k].current_line >= line,
        }),
    decreases ms.len(),
{
    if ms.len() > 0 {
        let p = ms.drop_last();
        let n = ms.len() - 1;
        lemma_pick_prev(p, line);
        assert forall|k: int| 0 <= k < p.len() implies #[trigger] p[k] == ms[k] by {}
        let b = pick_prev(p, line);
        let last = ms[n];
        assert(last == ms.last());
        if last.current_line < line && (b is None || last.current_line >= b->0.current_line) {
            assert(pick_prev(ms, line) == Some(last));
            assert forall|k: int| 0 <= k < ms.len() && #[trigger] ms[k].current_line < line
                implies ms[k].current_line <= last.current_line by {
                if k < n {
                    assert(p[k].current_line < line);
                }
            }
        } else {
            assert(pick_prev(ms, line) == b);
            match b {
                Some(bm) => {
                    let i = choose|i: int| 0 <= i < p.len() && p[i] == bm;
                    assert(ms[i] == bm);
                    assert forall|k: int| 0 <= k < ms.len() && #[trigger] ms[k].current_line < line
                        implies ms[k].current_line <= bm.current_line by {
                        if k < n {
                            assert(p[k].current_line < line);
                        }
                    }
                },
                None => {
                    assert forall|k: int| 0 <= k < ms.len() implies #[trigger] ms[k].current_line
                        >= line by {
                        if k < n {
                            assert(p[k].current_line >= line);
                        }
                    }
                },
            }
        }
    }
}

/// `pick_highest` picks a mark of `ms` on the greatest line, and one exactly
/// when `ms` is not empty.
proof fn lemma_pick_highest(ms: Seq<MarkView>)
    ensures
        (match pick_highest(ms) {
            Some(m) => {
                &&& exists|i: int| 0 <= i < ms.len() && ms[i] == m
                &&& forall|k: int| 0 <= k < ms.len() ==> #[trigger] ms[k].current_line <= m.current_line
            },
            None => ms.len() == 0,
        }),
    decreases ms.len(),
{
    if ms.len() > 0 {
        let p = ms.drop_last();
        let n = ms.len() - 1;
        lemma_pick_highest(p);
        assert forall|k: int| 0 <= k < p.len() implies #[trigger] p[k] == ms[k] by {}
        let b = pick_highest(p);
        let last = ms[n];
        assert(last == ms.last());
        if b is None || last.current_line >= b->0.current_line {
            assert(pick_highest(ms) == Some(last));
            assert forall|k: int| 0 <= k < ms.len() implies #[trigger] ms[k].current_line
                <= last.current_line by {
                if k < n {
                    assert(p[k].current_line == ms[k].current_line);
                }
            }
        } else {
            let bm = b->0;
            assert(pick_highest(ms) == Some(bm));
            let i = choose|i: int| 0 <= i < p.len() && p[i] == bm;
            assert(ms[i] == bm);
            assert forall|k: int| 0 <= k < ms.len() implies #[trigger] ms[k].current_line
                <= bm.current_line by {
                if k < n {
                    assert(p[k].current_line == ms[k].current_line);
                }
            }
        }
    }
}

/// Stepping forward from `line` among the marks `ms` of one file gives a mark
/// exactly when there is one. It is a mark after `line` on the least such line
/// when some mark lies after `line`, and otherwise wraps to a mark on the
/// least line of all.
pub proof fn law_step_next(ms: Seq<MarkView>, line: int)
    ensures
        step_next(ms, line) is Some <==> ms.len() > 0,
        (match step_next(ms, line) {
            Some(m) => {
                &&& exists|i: int| 0 <= i < ms.len() && ms[i] == m
                &&& (exists|k: int| 0 <= k < ms.len() && ms[k].current_line > line) ==> {
                    &&& m.current_line > line
                    &&& forall|k: int|
                        0 <= k < ms.len() && #[trigger] ms[k].current_line > line
                            ==> m.current_line <= ms[k].current_line
                }
                &&& (forall|k: int| 0 <= k < ms.len() ==> ms[k].current_line <= line) ==> forall|
                    k: int,
                | 0 <= k < ms.len() ==> m.current_line <= #[trigger] ms[k].current_line
            },
            None => true,
        }),
{
    lemma_pick_next(ms, line);
    lemma_pick_lowest(ms);
    if ms.len() > 0 && pick_next(ms, line) is None {
        assert(ms[0].current_line <= line);
    }
}

/// Stepping backward from `line` among the marks `ms` of one file gives a
/// mark exactly when there is one. It is a mark before `line` on the greatest
/// such line when some mark lies before `line`, and otherwise wraps to a mark
/// on the greatest line of all.
pub proof fn law_step_prev(ms: Seq<MarkView>, line: int)
    ensures
        step_prev(ms, line) is Some <==> ms.len() > 0,
        (match step_prev(ms, line) {
            Some(m) => {
                &&& exists|i: int| 0 <= i < ms.len() && ms[i] == m
                &&& (exists|k: int| 0 <= k < ms.len() && ms[k].current_line < line) ==> {
                    &&& m.current_line < line
                    &&& forall|k: int|
                        0 <= k < ms.len() && #[trigger] ms[k].current_line < line
                            ==> ms[k].current_line <= m.current_line
                }
                &&& (forall|k: int| 0 <= k < ms.len() ==> ms[k].current_line >= line) ==> forall|
                    k: int,
                | 0 <= k < ms.len() ==> #[trigger] ms[k].current_line <= m.current_line
            },
            None => true,
        }),
{
    lemma_pick_prev(ms, line);
    lemma_pick_highest(ms);
    if ms.len() > 0 && pick_prev(ms, line) is None {
        assert(ms[0].current_line >= line);
    }
}

/// Reanchoring a mark twice against the same content changes nothing the
/// second time.
pub proof fn law_reanchor_settles(m: MarkView, content: Seq<char>, now: u64, later: u64)
    requires
        lines(content).len() <= usize::MAX,
    ensures
        !reanchor_changes(reanchored(m, content, now), content),
        reanchored(reanchored(m, content, now), content, later) == reanchored(m, content, now),
{
    let hs = line_hashes(content);
    lemma_nearest_match(hs, m.line_hash, m.current_line as int);
    let r = reanchored(m, content, now);
    match nearest_match(hs, m.line_hash, m.current_line as int) {
        Some(j) => {
            lemma_nearest_match(hs, m.line_hash, j);
            assert(r.current_line == j);
            assert(dist(j, j) == 0);
        },
        None => {
            lemma_nearest_match(hs, m.line_hash, r.current_line as int);
        },
    }
}

/// Listing a file with its current content moves each of its marks to the
/// line that has the mark's hash and lies nearest the mark's previous line
/// (no line with that hash is nearer); a mark whose hash no line has keeps
/// its line and goes stale. A mark is stamped with `now` exactly when its
/// line or status changed, nothing else of it changes, and marks outside
/// the file are left as they were.
pub proof fn law_list_moves_marks_to_nearest_match(
    ms: Seq<MarkView>,
    workspace: Seq<char>,
    file: Seq<char>,
    content: Seq<char>,
    now: u64,
    k: int,
)
    requires
        0 <= k < ms.len(),
        lines(content).len() <= usize::MAX,
    ensures
        ({
            let m = ms[k];
            let r = listed_store(ms, workspace, Some(file), Some(content), now)[k];
            let hs = lines(content).map_values(|l: Seq<char>| line_hash_spec(l));
            &&& listed_store(ms, workspace, Some(file), Some(content), now).len() == ms.len()
            &&& !in_scope(m, workspace, Some(file)) ==> r == m
            &&& in_scope(m, workspace, Some(file)) ==> {
                &&& (exists|i: int| 1 <= i <= hs.len() && #[trigger] hs[i - 1] == m.line_hash) ==> {
                    &&& 1 <= r.current_line <= hs.len()
                    &&& hs[r.current_line - 1] == m.line_hash
                    &&& forall|i: int|
                        1 <= i <= hs.len() && #[trigger] hs[i - 1] == m.line_hash ==> dist(
                            r.current_line as int,
                            m.current_line as int,
                        ) <= dist(i, m.current_line as int)
                    &&& r.status == (if m.status == "stale"@ {
                        if m.thread_id is Some {
                            "linked"@
                        } else {
                            "open"@
                        }
                    } else {
                        m.status
                    })
                }
                &&& (forall|i: int| 1 <= i <= hs.len() ==> #[trigger] hs[i - 1] != m.line_hash) ==> {
                    &&& r.current_line == m.current_line
                    &&& r.status == "stale"@
                }
                &&& r.updated_at == (if r.current_line != m.current_line || r.status != m.status {
                    now
                } else {
                    m.updated_at
                })
                &&& r == (MarkView { current_line: r.current_line, status: r.status, updated_at: r.updated_at, ..m })
            }
        }),
{
    let m = ms[k];
    let hs = line_hashes(content);
    assert(hs == lines(content).map_values(|l: Seq<char>| line_hash_spec(l)));
    lemma_nearest_match(hs, m.line_hash, m.current_line as int);
}

/// A mark created in a workspace and file comes last in a listing of that
/// workspace and file (or of the whole workspace) when no content is given,
/// after the marks that were listed before.
pub proof fn law_created_mark_is_listed(
    ms: Seq<MarkView>,
    id: Seq<char>,
    workspace: Seq<char>,
    file: Seq<char>,
    offset: usize,
    content: Seq<char>,
    thread_id: Option<Seq<char>>,
    now: u64,
    filter: Option<Seq<char>>,
    later: u64,
)
    requires
        filter is None || filter == Some(file),
    ensures
        ({
            let m = new_mark(id, workspace, file, offset, content, thread_id, now);
            let after = ms.push(m);
            &&& listed_store(after, workspace, filter, None, later) == after
            &&& select(after, workspace, filter) == select(ms, workspace, filter).push(m)
        }),
{
    let m = new_mark(id, workspace, file, offset, content, thread_id, now);
    let after = ms.push(m);
    assert(after.drop_last() =~= ms);
    assert(in_scope(m, workspace, filter));
}

/// After detaching a thread, no mark has it; every mark that had it is
/// detached and every other mark is unchanged.
pub proof fn law_unlink_clears(ms: Seq<MarkView>, thread_id: Seq<char>, now: u64)
    ensures
        unlinked_store(ms, thread_id, now).len() == ms.len(),
        forall|i: int|
            0 <= i < ms.len() ==> !has_thread(#[trigger] unlinked_store(ms, thread_id, now)[i], thread_id),
        forall|i: int|
            0 <= i < ms.len() && !has_thread(ms[i], thread_id) ==> #[trigger] unlinked_store(
                ms,
                thread_id,
                now,
            )[i] == ms[i],
{
}

/// Store path for marks under the runtime directory.
pub fn store_path(runtime_dir: &str) -> (r: String)
    ensures
        r@ == crate::paths::join_path(runtime_dir@, "marks.json"@),
{
    crate::paths::join(runtime_dir, "marks.json")
}

} // verus!
