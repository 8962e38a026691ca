//! File records and the catalog that holds them.

use vstd::prelude::*;

use crate::text::{
    blank, char_range, count_leading_ws, decimal, decimal_string, is_blank, join, join_range,
    prefix, split_words, trim_start, views, words,
};

verus! {

/// One uploaded file as the catalog records it.
#[derive(Debug, Clone)]
pub struct FileInfo {
    pub id: String,
    pub name: String,
    pub file_type: String,
    pub size: u64,
    pub upload_date: String,
    pub content: String,
    pub is_context_enabled: bool,
    pub summary: String,
    pub conversation_id: Option<String>,
}

/// The mathematical value of a [`FileInfo`].
pub struct RecordView {
    pub id: Seq<char>,
    pub name: Seq<char>,
    pub file_type: Seq<char>,
    pub size: u64,
    pub upload_date: Seq<char>,
    pub content: Seq<char>,
    pub is_context_enabled: bool,
    pub summary: Seq<char>,
    pub conversation_id: Option<Seq<char>>,
}

/// The view of an optional string.
pub open spec fn opt_view(o: Option<String>) -> Option<Seq<char>> {
    match o {
        Some(s) => Some(s@),
        None => None,
    }
}

impl View for FileInfo {
    type V = RecordView;

    open spec fn view(&self) -> RecordView {
        RecordView {
            id: self.id@,
            name: self.name@,
            file_type: self.file_type@,
            size: self.size,
            upload_date: self.upload_date@,
            content: self.content@,
            is_context_enabled: self.is_context_enabled,
            summary: self.summary@,
            conversation_id: opt_view(self.conversation_id),
        }
    }
}

/// Copies an optional string.
pub fn copy_opt(o: &Option<String>) -> (r: Option<String>)
    ensures
        opt_view(r) == opt_view(*o),
{
    match o {
        Some(s) => Some(s.clone()),
        None => None,
    }
}

impl FileInfo {
    /// A copy of this record.
    pub fn duplicate(&self) -> (r: FileInfo)
        ensures
            r@ == self@,
    {
        FileInfo {
            id: self.id.clone(),
            name: self.name.clone(),
            file_type: self.file_type.clone(),
            size: self.size,
            upload_date: self.upload_date.clone(),
            content: self.content.clone(),
            is_context_enabled: self.is_context_enabled,
            summary: self.summary.clone(),
            conversation_id: copy_opt(&self.conversation_id),
        }
    }
}

/// Why a catalog operation failed.
#[derive(Debug, Clone)]
pub enum CatalogError {
    /// No record of the index has this id.
    NotFound(String),
    /// The index has a record with this id, but its blob is missing.
    BlobMissing(String),
    /// The blob could not be turned into text.
    Extraction(String),
}

/// The views of a sequence of records.
pub open spec fn record_views(s: Seq<FileInfo>) -> Seq<RecordView> {
    s.map_values(|f: FileInfo| f@)
}

/// The catalog: the records of its index, in the order they are persisted.
#[derive(Debug)]
pub struct FileStorage {
    pub files: Vec<FileInfo>,
}

impl View for FileStorage {
    type V = Seq<RecordView>;

    open spec fn view(&self) -> Seq<RecordView> {
        record_views(self.files@)
    }
}

/// The position of the first record of `s` with id `id`, if any.
pub open spec fn find_id(s: Seq<RecordView>, id: Seq<char>) -> Option<int>
    decreases s.len(),
{
    if s.len() == 0 {
        None
    } else {
        match find_id(s.drop_last(), id) {
            Some(i) => Some(i),
            None => if s.last().id == id {
                Some(s.len() - 1)
            } else {
                None
            },
        }
    }
}

/// What `find_id` gives: the first record with that id, if there is one.
pub proof fn lemma_find_id(s: Seq<RecordView>, id: Seq<char>)
    ensures
        match find_id(s, id) {
            Some(i) => 0 <= i < s.len() && s[i].id == id && forall|j: int|
                0 <= j < i ==> s[j].id != id,
            None => forall|j: int| 0 <= j < s.len() ==> s[j].id != id,
        },
    decreases s.len(),
{
    if s.len() > 0 {
        let p = s.drop_last();
        lemma_find_id(p, id);
        assert forall|j: int| 0 <= j < p.len() implies #[trigger] p[j] == s[j] by {}
        match find_id(p, id) {
            Some(i) => {
                assert(find_id(s, id) == Some(i));
                assert forall|j: int| 0 <= j < i implies s[j].id != id by {
                    assert(p[j] == s[j]);
                }
            },
            None => {
                assert forall|j: int| 0 <= j < s.len() - 1 implies s[j].id != id by {
                    assert(p[j] == s[j]);
                }
            },
        }
    }
}

/// `s` with the record for `r`'s id replaced by `r`, or with `r` appended.
pub open spec fn upsert(s: Seq<RecordView>, r: RecordView) -> Seq<RecordView> {
    match find_id(s, r.id) {
        Some(i) => s.update(i, r),
        None => s.push(r),
    }
}

/// `r` with its context toggle flipped.
pub open spec fn flipped(r: RecordView) -> RecordView {
    RecordView { is_context_enabled: !r.is_context_enabled, ..r }
}

/// `s` with the context toggle of record `i` flipped.
pub open spec fn toggle_at(s: Seq<RecordView>, i: int) -> Seq<RecordView> {
    s.update(i, flipped(s[i]))
}

/// Whether `r` belongs to conversation `c`.
pub open spec fn in_conversation(r: RecordView, c: Seq<char>) -> bool {
    r.conversation_id == Some(c)
}

/// The records of `s` that belong to conversation `c`.
pub open spec fn of_conversation(s: Seq<RecordView>, c: Seq<char>) -> Seq<RecordView> {
    s.filter(conversation_pred(c))
}

/// Membership in conversation `c`, as a predicate.
pub open spec fn conversation_pred(c: Seq<char>) -> spec_fn(RecordView) -> bool {
    |r: RecordView| in_conversation(r, c)
}

/// Non-membership in conversation `c`, as a predicate.
pub open spec fn other_conversation_pred(c: Seq<char>) -> spec_fn(RecordView) -> bool {
    |r: RecordView| !in_conversation(r, c)
}

/// Being changed by linking to `c`, as a predicate.
pub open spec fn link_pred(c: Seq<char>) -> spec_fn(RecordView) -> bool {
    |r: RecordView| link_changes(r, c)
}

/// Taking part in context assembly, as a predicate.
pub open spec fn enabled_pred() -> spec_fn(RecordView) -> bool {
    |r: RecordView| r.is_context_enabled
}

proof fn lemma_filter_step(s: Seq<RecordView>, i: int, p: spec_fn(RecordView) -> bool)
    requires
        0 <= i < s.len(),
    ensures
        s.take(i + 1).filter(p) == if p(s[i]) {
            s.take(i).filter(p).push(s[i])
        } else {
            s.take(i).filter(p)
        },
{
    reveal(Seq::filter);
    assert(s.take(i + 1).drop_last() =~= s.take(i));
    assert(s.take(i + 1).last() == s[i]);
}

/// The records of `s` that do not belong to conversation `c`.
pub open spec fn outside_conversation(s: Seq<RecordView>, c: Seq<char>) -> Seq<RecordView> {
    s.filter(other_conversation_pred(c))
}

/// `r` after linking: an enabled record is associated with `c`.
pub open spec fn linked(r: RecordView, c: Seq<char>) -> RecordView {
    if r.is_context_enabled {
        RecordView { conversation_id: Some(c), ..r }
    } else {
        r
    }
}

/// Whether linking to `c` changes `r`.
pub open spec fn link_changes(r: RecordView, c: Seq<char>) -> bool {
    r.is_context_enabled && r.conversation_id != Some(c)
}

/// How many records of `s` linking to `c` changes.
pub open spec fn link_change_count(s: Seq<RecordView>, c: Seq<char>) -> nat {
    s.filter(link_pred(c)).len()
}

/// The block that whole-context assembly gives for a record.
pub open spec fn context_block(r: RecordView) -> Seq<char> {
    "File: "@ + r.name + "\nContent:\n"@ + r.content
}

/// The records of `s` that take part in context assembly.
pub open spec fn enabled_records(s: Seq<RecordView>) -> Seq<RecordView> {
    s.filter(enabled_pred())
}

/// The snippet of content that a summary shows: at most the first 400
/// characters after leading whitespace, with whitespace runs collapsed to
/// single spaces.
pub open spec fn snippet(content: Seq<char>) -> Seq<char> {
    join(words(prefix(trim_start(content), 400)), " "@)
}

/// The summary of a record: name, type, size and a snippet of its content.
pub open spec fn summary_text(name: Seq<char>, file_type: Seq<char>, size: u64, content: Seq<char>) -> Seq<char> {
    name + " ["@ + file_type + " | "@ + decimal(size as nat) + " bytes] \u{2014} "@ + snippet(content)
}

/// `r` with a summary computed where it had only whitespace.
pub open spec fn backfilled(r: RecordView) -> RecordView {
    if is_blank(r.summary) {
        RecordView { summary: summary_text(r.name, r.file_type, r.size, r.content), ..r }
    } else {
        r
    }
}

/// Deleting by conversation `c` keeps no record of `c`, keeps every record
/// of another conversation or of none, and removes as many records as `c`
/// has.
pub proof fn lemma_delete_scoping(s: Seq<RecordView>, c: Seq<char>)
    ensures
        forall|i: int|
            0 <= i < outside_conversation(s, c).len() ==> !in_conversation(
                #[trigger] outside_conversation(s, c)[i],
                c,
            ),
        forall|i: int|
            0 <= i < s.len() && !in_conversation(s[i], c) ==> #[trigger] outside_conversation(
                s,
                c,
            ).contains(s[i]),
        of_conversation(s, c).len() + outside_conversation(s, c).len() == s.len(),
    decreases s.len(),
{
    s.filter_lemma(other_conversation_pred(c));
    assert forall|i: int|
        0 <= i < outside_conversation(s, c).len() implies !in_conversation(
        #[trigger] outside_conversation(s, c)[i],
        c,
    ) by {
        assert(other_conversation_pred(c)(outside_conversation(s, c)[i]));
    }
    assert forall|i: int|
        0 <= i < s.len() && !in_conversation(s[i], c) implies #[trigger] outside_conversation(
        s,
        c,
    ).contains(s[i]) by {
        assert(other_conversation_pred(c)(s[i]));
    }
    if s.len() > 0 {
        lemma_delete_scoping(s.drop_last(), c);
        lemma_filter_step(s, s.len() - 1, conversation_pred(c));
        lemma_filter_step(s, s.len() - 1, other_conversation_pred(c));
        assert(s.take(s.len() - 1) =~= s.drop_last());
        assert(s.take(s.len() as int) =~= s);
    } else {
        reveal(Seq::filter);
    }
}

/// The records of `s` as listing shows them: blank summaries filled in.
pub open spec fn listed(s: Seq<RecordView>) -> Seq<RecordView> {
    s.map_values(|f: RecordView| backfilled(f))
}

/// Toggling the same record twice gives back the catalog as it was, and the
/// first toggle leaves every id where it was.
pub proof fn lemma_toggle_twice(s: Seq<RecordView>, id: Seq<char>)
    requires
        find_id(s, id) is Some,
    ensures
        find_id(toggle_at(s, find_id(s, id)->0), id) == find_id(s, id),
        toggle_at(toggle_at(s, find_id(s, id)->0), find_id(s, id)->0) == s,
{
    let i = find_id(s, id)->0;
    lemma_find_id(s, id);
    lemma_find_id(toggle_at(s, i), id);
    let t = toggle_at(s, i);
    assert forall|j: int| 0 <= j < s.len() implies #[trigger] t[j].id == s[j].id by {}
    assert(toggle_at(t, i) =~= s);
}

impl FileStorage {
    /// An empty catalog.
    pub fn new() -> (r: FileStorage)
        ensures
            r@ == Seq::<RecordView>::empty(),
    {
        let r = FileStorage { files: Vec::new() };
        assert(r@ =~= Seq::<RecordView>::empty());
        r
    }

    /// A catalog over the records of an index, in their order.
    pub fn from_records(files: Vec<FileInfo>) -> (r: FileStorage)
        ensures
            r@ == record_views(files@),
    {
        FileStorage { files }
    }

    /// The records of the index, in their order.
    pub fn records(&self) -> (r: &Vec<FileInfo>)
        ensures
            record_views(r@) == self@,
    {
        &self.files
    }

    /// The position of the first record with id `file_id`.
    pub fn position(&self, file_id: &str) -> (r: Option<usize>)
        ensures
            match r {
                Some(i) => find_id(self@, file_id@) == Some(i as int),
                None => find_id(self@, file_id@) is None,
            },
    {
        let key = String::from_str(file_id);
        let mut i: usize = 0;
        while i < self.files.len()
            invariant
                i <= self.files@.len(),
                key@ == file_id@,
                find_id(self@.take(i as int), file_id@) is None,
            decreases self.files@.len() - i,
        {
            assert(self@.take(i + 1).drop_last() =~= self@.take(i as int));
            if self.files[i].id == key {
                proof {
                    lemma_find_id(self@.take(i as int), file_id@);
                    lemma_find_id(self@, file_id@);
                    lemma_find_id(self@.take(i + 1), file_id@);
                    prefix_find(self@, file_id@, i + 1);
                }
                return Some(i);
            }
            i = i + 1;
        }
        assert(self@.take(i as int) =~= self@);
        None
    }

    /// Records `new_file`, replacing the record with its id if there is one.
    pub fn save_file_to_index(&mut self, new_file: &FileInfo)
        ensures
            final(self)@ == upsert(old(self)@, new_file@),
    {
        let copy = new_file.duplicate();
        proof {
            lemma_find_id(self@, new_file@.id);
        }
        match self.position(new_file.id.as_str()) {
            Some(i) => {
                self.files.set(i, copy);
                assert(self@ =~= upsert(old(self)@, new_file@));
            },
            None => {
                self.files.push(copy);
                assert(self@ =~= upsert(old(self)@, new_file@));
            },
        }
    }

    /// Flips the context toggle of the record with id `file_id` and returns
    /// the record as it now is.
    pub fn toggle_context(&mut self, file_id: &str) -> (r: Result<FileInfo, CatalogError>)
        ensures
            match find_id(old(self)@, file_id@) {
                Some(i) => final(self)@ == toggle_at(old(self)@, i) && r is Ok && r->Ok_0@
                    == final(self)@[i],
                None => final(self)@ == old(self)@ && (r matches Err(CatalogError::NotFound(e))
                    && e@ == file_id@),
            },
    {
        proof {
            lemma_find_id(self@, file_id@);
        }
        match self.position(file_id) {
            Some(i) => {
                let mut f = self.files[i].duplicate();
                f.is_context_enabled = !f.is_context_enabled;
                let out = f.duplicate();
                self.files.set(i, f);
                assert(self@ =~= toggle_at(old(self)@, i as int));
                Ok(out)
            },
            None => Err(CatalogError::NotFound(String::from_str(file_id))),
        }
    }

    /// Removes the record with id `file_id`.
    pub fn delete_file(&mut self, file_id: &str) -> (r: Result<(), CatalogError>)
        ensures
            match find_id(old(self)@, file_id@) {
                Some(i) => final(self)@ == old(self)@.remove(i) && r is Ok,
                None => final(self)@ == old(self)@ && (r matches Err(CatalogError::NotFound(e))
                    && e@ == file_id@),
            },
    {
        proof {
            lemma_find_id(self@, file_id@);
        }
        match self.position(file_id) {
            Some(i) => {
                self.files.remove(i);
                assert(self@ =~= old(self)@.remove(i as int));
                Ok(())
            },
            None => Err(CatalogError::NotFound(String::from_str(file_id))),
        }
    }

    /// How many records belong to conversation `conversation_id`.
    pub fn count_files_by_conversation(&self, conversation_id: &str) -> (r: usize)
        ensures
            r == of_conversation(self@, conversation_id@).len(),
    {
        let key = String::from_str(conversation_id);
        let mut n: usize = 0;
        let mut i: usize = 0;
        while i < self.files.len()
            invariant
                i <= self.files@.len(),
                key@ == conversation_id@,
                n == of_conversation(self@.take(i as int), conversation_id@).len(),
                n <= i,
            decreases self.files@.len() - i,
        {
            proof {
                lemma_filter_step(self@, i as int, conversation_pred(conversation_id@));
                lemma_filter_step(self@, i as int, other_conversation_pred(conversation_id@));
            }
            let hit = match &self.files[i].conversation_id {
                Some(c) => *c == key,
                None => false,
            };
            if hit {
                n = n + 1;
            }
            i = i + 1;
        }
        assert(self@.take(i as int) =~= self@);
        n
    }

    /// The records that belong to conversation `conversation_id`, in order.
    pub fn files_in_conversation(&self, conversation_id: &str) -> (r: Vec<FileInfo>)
        ensures
            record_views(r@) == of_conversation(self@, conversation_id@),
    {
        let key = String::from_str(conversation_id);
        let mut out: Vec<FileInfo> = Vec::new();
        let mut i: usize = 0;
        while i < self.files.len()
            invariant
                i <= self.files@.len(),
                key@ == conversation_id@,
                record_views(out@) == of_conversation(self@.take(i as int), conversation_id@),
            decreases self.files@.len() - i,
        {
            proof {
                lemma_filter_step(self@, i as int, conversation_pred(conversation_id@));
                lemma_filter_step(self@, i as int, other_conversation_pred(conversation_id@));
            }
            let hit = match &self.files[i].conversation_id {
                Some(c) => *c == key,
                None => false,
            };
            if hit {
                let ghost before = record_views(out@);
                out.push(self.files[i].duplicate());
                assert(record_views(out@) =~= before.push(self.files@[i as int]@));
            }
            i = i + 1;
        }
        assert(self@.take(i as int) =~= self@);
        out
    }

    /// Removes every record that belongs to conversation `conversation_id`
    /// and returns how many were removed.
    pub fn delete_files_by_conversation(&mut self, conversation_id: &str) -> (r: usize)
        ensures
            final(self)@ == outside_conversation(old(self)@, conversation_id@),
            r == of_conversation(old(self)@, conversation_id@).len(),
    {
        let key = String::from_str(conversation_id);
        let mut kept: Vec<FileInfo> = Vec::new();
        let mut n: usize = 0;
        let mut i: usize = 0;
        while i < self.files.len()
            invariant
                i <= self.files@.len(),
                self@ == old(self)@,
                key@ == conversation_id@,
                record_views(kept@) == outside_conversation(self@.take(i as int), conversation_id@),
                n == of_conversation(self@.take(i as int), conversation_id@).len(),
                n <= i,
            decreases self.files@.len() - i,
        {
            proof {
                lemma_filter_step(self@, i as int, conversation_pred(conversation_id@));
                lemma_filter_step(self@, i as int, other_conversation_pred(conversation_id@));
            }
            let hit = match &self.files[i].conversation_id {
                Some(c) => *c == key,
                None => false,
            };
            if hit {
                n = n + 1;
            } else {
                let ghost before = record_views(kept@);
                kept.push(self.files[i].duplicate());
                assert(record_views(kept@) =~= before.push(self.files@[i as int]@));
            }
            i = i + 1;
        }
        assert(self@.take(i as int) =~= self@);
        self.files = kept;
        n
    }

    /// Associates every context-enabled record with conversation
    /// `conversation_id`; returns how many records this changed.
    pub fn link_enabled_files_to_conversation(&mut self, conversation_id: &str) -> (r: usize)
        ensures
            final(self)@ == old(self)@.map_values(|f: RecordView| linked(f, conversation_id@)),
            r == link_change_count(old(self)@, conversation_id@),
    {
        let key = String::from_str(conversation_id);
        let mut out: Vec<FileInfo> = Vec::new();
        let mut n: usize = 0;
        let mut i: usize = 0;
        while i < self.files.len()
            invariant
                i <= self.files@.len(),
                self@ == old(self)@,
                key@ == conversation_id@,
                record_views(out@) == self@.take(i as int).map_values(
                    |f: RecordView| linked(f, conversation_id@),
                ),
                n == link_change_count(self@.take(i as int), conversation_id@),
                n <= i,
            decreases self.files@.len() - i,
        {
            proof {
                lemma_filter_step(self@, i as int, link_pred(conversation_id@));
            }
            let mut f = self.files[i].duplicate();
            if f.is_context_enabled {
                let same = match &f.conversation_id {
                    Some(c) => *c == key,
                    None => false,
                };
                if !same {
                    f.conversation_id = Some(key.clone());
                    n = n + 1;
                }
            }
            let ghost before = record_views(out@);
            out.push(f);
            assert(record_views(out@) =~= before.push(linked(self@[i as int], conversation_id@)));
            assert(self@.take(i + 1).map_values(|f: RecordView| linked(f, conversation_id@))
                =~= self@.take(i as int).map_values(|f: RecordView| linked(f, conversation_id@)).push(
                linked(self@[i as int], conversation_id@),
            ));
            i = i + 1;
        }
        assert(self@.take(i as int) =~= self@);
        self.files = out;
        n
    }

    /// One block per context-enabled record, holding its name and its stored content.
    pub fn get_context_content(&self) -> (r: Vec<String>)
        ensures
            views(r@) == enabled_records(self@).map_values(|f: RecordView| context_block(f)),
    {
        let mut out: Vec<String> = Vec::new();
        let mut i: usize = 0;
        while i < self.files.len()
            invariant
                i <= self.files@.len(),
                views(out@) == enabled_records(self@.take(i as int)).map_values(
                    |f: RecordView| context_block(f),
                ),
            decreases self.files@.len() - i,
        {
            proof {
                lemma_filter_step(self@, i as int, enabled_pred());
            }
            let f = &self.files[i];
            if f.is_context_enabled {
                let mut b = String::from_str("File: ");
                b.append(f.name.as_str());
                b.append("\nContent:\n");
                b.append(f.content.as_str());
                let ghost before = views(out@);
                out.push(b);
                assert(views(out@) =~= before.push(context_block(f@)));
                assert(enabled_records(self@.take(i + 1)).map_values(|f: RecordView| context_block(f))
                    =~= enabled_records(self@.take(i as int)).map_values(|f: RecordView| context_block(f)).push(context_block(f@)));
            } else {
                assert(enabled_records(self@.take(i + 1)) == enabled_records(self@.take(i as int)));
            }
            i = i + 1;
        }
        assert(self@.take(i as int) =~= self@);
        out
    }

    /// A short digest of a file: its name, type and size, and a snippet of
    /// its content.
    pub fn summarize(name: &str, file_type: &str, size: u64, content: &str) -> (r: String)
        ensures
            r@ == summary_text(name@, file_type@, size, content@),
    {
        let lead = count_leading_ws(content);
        let len = content.unicode_len();
        let end = if len - lead <= 400 { len } else { lead + 400 };
        let part = char_range(content, lead, end);
        assert(part@ == prefix(trim_start(content@), 400));
        let ws = split_words(part.as_str());
        let cleaned = join_range(&ws, 0, ws.len(), " ");
        assert(views(ws@).subrange(0, ws@.len() as int) =~= views(ws@));
        let mut r = String::from_str(name);
        r.append(" [");
        r.append(file_type);
        r.append(" | ");
        let sz = decimal_string(size);
        r.append(sz.as_str());
        r.append(" bytes] \u{2014} ");
        r.append(cleaned.as_str());
        r
    }

    /// Gives every record whose summary holds only whitespace a computed
    /// summary; returns whether any record changed.
    pub fn backfill_summaries(&mut self) -> (changed: bool)
        ensures
            final(self)@ == listed(old(self)@),
            changed == exists|i: int| 0 <= i < old(self)@.len() && is_blank(#[trigger] old(self)@[i].summary),
    {
        let mut out: Vec<FileInfo> = Vec::new();
        let mut changed = false;
        let mut i: usize = 0;
        while i < self.files.len()
            invariant
                i <= self.files@.len(),
                self@ == old(self)@,
                record_views(out@) == self@.take(i as int).map_values(|f: RecordView| backfilled(f)),
                changed == exists|j: int| 0 <= j < i && is_blank(#[trigger] self@[j].summary),
            decreases self.files@.len() - i,
        {
            let mut f = self.files[i].duplicate();
            if blank(f.summary.as_str()) {
                f.summary = FileStorage::summarize(f.name.as_str(), f.file_type.as_str(), f.size, f.content.as_str());
                changed = true;
            }
            let ghost before = record_views(out@);
            out.push(f);
            assert(record_views(out@) =~= before.push(backfilled(self@[i as int])));
            assert(self@.take(i + 1).map_values(|f: RecordView| backfilled(f))
                =~= self@.take(i as int).map_values(|f: RecordView| backfilled(f)).push(backfilled(self@[i as int])));
            i = i + 1;
        }
        assert(self@.take(i as int) =~= self@);
        self.files = out;
        changed
    }

    /// The records of the index, after giving blank summaries a computed one.
    pub fn list_files(&mut self) -> (r: Vec<FileInfo>)
        ensures
            final(self)@ == listed(old(self)@),
            record_views(r@) == final(self)@,
    {
        self.backfill_summaries();
        let mut out: Vec<FileInfo> = Vec::new();
        let mut i: usize = 0;
        while i < self.files.len()
            invariant
                i <= self.files@.len(),
                record_views(out@) == self@.take(i as int),
            decreases self.files@.len() - i,
        {
            let ghost before = record_views(out@);
            out.push(self.files[i].duplicate());
            assert(record_views(out@) =~= before.push(self@[i as int]));
            assert(self@.take(i + 1) =~= self@.take(i as int).push(self@[i as int]));
            i = i + 1;
        }
        assert(self@.take(i as int) =~= self@);
        out
    }

    /// Removes every record.
    pub fn wipe_all(&mut self)
        ensures
            final(self)@ == Seq::<RecordView>::empty(),
    {
        self.files = Vec::new();
        assert(self@ =~= Seq::<RecordView>::empty());
    }
}

proof fn prefix_find(s: Seq<RecordView>, id: Seq<char>, k: int)
    requires
        0 <= k <= s.len(),
        find_id(s.take(k), id) is Some,
    ensures
        find_id(s, id) == find_id(s.take(k), id),
    decreases s.len() - k,
{
    if k < s.len() {
        assert(s.take(k + 1).drop_last() =~= s.take(k));
        prefix_find(s, id, k + 1);
    } else {
        assert(s.take(k) =~= s);
    }
}

} // verus!
