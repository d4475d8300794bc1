//! Admission of packaged models: which entries of a manifest are loaded, and what is retained.
use crate::text::{decimal, decimal_text};
use std::sync::Arc;
use vstd::prelude::*;

verus! {

/// The version of the manifest format.
pub const MANIFEST_VERSION: u32 = 1;

/// The largest manifest that is read.
pub const MAX_MANIFEST_BYTES: u64 = 1_048_576;

/// The most models that a manifest may list.
pub const MAX_MODEL_COUNT: usize = 64;

/// What a part of a path is.
#[derive(Clone, Copy, Debug, PartialEq, Eq, Structural)]
pub enum PathComponent {
    Prefix,
    RootDir,
    CurDir,
    ParentDir,
    Normal,
}

/// A path as its platform takes it apart.
#[derive(Debug)]
pub struct ModelPath {
    /// The path as it is shown.
    pub text: String,
    pub is_empty: bool,
    pub is_absolute: bool,
    pub components: Vec<PathComponent>,
}

/// One model of a manifest.
#[derive(Debug)]
pub struct ModelEntry {
    pub id: String,
    pub file: ModelPath,
    pub expected_bytes: Option<u64>,
}

/// Whether a path stays below the directory that it is joined to.
pub open spec fn stays_below(path: ModelPath) -> bool {
    &&& !path.is_empty
    &&& !path.is_absolute
    &&& forall|i: int|
        0 <= i < path.components@.len() ==> (#[trigger] path.components@[i])
            == PathComponent::Normal
}

pub fn safe_relative_model_path(path: &ModelPath) -> (safe: bool)
    ensures
        safe == stays_below(*path),
{
    if path.is_empty || path.is_absolute {
        return false;
    }
    let mut i: usize = 0;
    while i < path.components.len()
        invariant
            i <= path.components@.len(),
            forall|j: int| 0 <= j < i ==> (#[trigger] path.components@[j]) == PathComponent::Normal,
        decreases path.components@.len() - i,
    {
        if path.components[i] != PathComponent::Normal {
            assert(path.components@[i as int] != PathComponent::Normal);
            return false;
        }
        i += 1;
    }
    true
}

/// Whether a character separates words, as Unicode's White_Space property says.
pub open spec fn is_white_space(c: char) -> bool {
    let code = c as u32;
    ||| 0x09 <= code <= 0x0D
    ||| code == 0x20 || code == 0x85 || code == 0xA0 || code == 0x1680
    ||| 0x2000 <= code <= 0x200A
    ||| code == 0x2028 || code == 0x2029 || code == 0x202F || code == 0x205F || code == 0x3000
}

/// Whether a text says nothing.
pub open spec fn is_blank(text: Seq<char>) -> bool {
    forall|i: int| 0 <= i < text.len() ==> is_white_space(#[trigger] text[i])
}

fn blank(text: &str) -> (says_nothing: bool)
    ensures
        says_nothing == is_blank(text@),
{
    let length: usize = text.unicode_len();
    let mut i: usize = 0;
    while i < length
        invariant
            length == text@.len(),
            i <= length,
            forall|j: int| 0 <= j < i ==> is_white_space(#[trigger] text@[j]),
        decreases length - i,
    {
        let c = text.get_char(i);
        let code: u32 = c as u32;
        let white = (0x09 <= code && code <= 0x0D) || code == 0x20 || code == 0x85 || code == 0xA0
            || code == 0x1680 || (0x2000 <= code && code <= 0x200A) || code == 0x2028 || code
            == 0x2029 || code == 0x202F || code == 0x205F || code == 0x3000;
        if !white {
            assert(!is_white_space(text@[i as int]));
            return false;
        }
        i += 1;
    }
    true
}

/// The bytes of the models that were loaded, by their stable id.
#[derive(Debug)]
pub struct PreloadedModels {
    entries: Vec<(String, Arc<[u8]>)>,
    total_bytes: usize,
}

/// The models by id, in the order in which they were loaded.
pub type Models = Seq<(Seq<char>, Seq<u8>)>;

impl PreloadedModels {
    /// The models by id, in the order in which they were loaded.
    pub closed spec fn models(&self) -> Models {
        Seq::new(self.entries@.len(), |i: int| (self.entries@[i].0@, self.entries@[i].1@))
    }

    /// What all of them hold.
    pub closed spec fn total(&self) -> nat {
        self.total_bytes as nat
    }

    pub fn new() -> (models: Self)
        ensures
            models.models() == Seq::<(Seq<char>, Seq<u8>)>::empty(),
            models.total() == 0,
    {
        let models = PreloadedModels { entries: Vec::new(), total_bytes: 0 };
        assert(models.models() =~= Seq::empty());
        models
    }

    pub fn len(&self) -> (count: usize)
        ensures
            count == self.models().len(),
    {
        self.entries.len()
    }

    pub fn total_bytes(&self) -> (bytes: usize)
        ensures
            bytes == self.total(),
    {
        self.total_bytes
    }

    /// The first model with this id.
    pub fn get(&self, id: &String) -> (found: Option<Arc<[u8]>>)
        ensures
            match found {
                Some(bytes) => exists|i: int|
                    0 <= i < self.models().len() && (#[trigger] self.models()[i]) == (id@, bytes@)
                        && forall|j: int|
                        0 <= j < i ==> (#[trigger] self.models()[j]).0 != id@,
                None => forall|i: int|
                    0 <= i < self.models().len() ==> (#[trigger] self.models()[i]).0 != id@,
            },
    {
        let mut i: usize = 0;
        while i < self.entries.len()
            invariant
                i <= self.entries@.len(),
                self.models().len() == self.entries@.len(),
                forall|j: int| 0 <= j < i ==> (#[trigger] self.models()[j]).0 != id@,
            decreases self.entries@.len() - i,
        {
            assert(self.models()[i as int] == (
                self.entries@[i as int].0@,
                self.entries@[i as int].1@,
            ));
            if self.entries[i].0 == *id {
                let bytes = self.entries[i].1.clone();
                assert(self.models()[i as int] == (id@, bytes@));
                return Some(bytes);
            }
            i += 1;
        }
        None
    }

    fn insert(&mut self, id: String, bytes: Arc<[u8]>)
        ensures
            final(self).models() == old(self).models().push((id@, bytes@)),
            final(self).total() == saturated(old(self).total() + bytes@.len()),
    {
        let ghost before = self.models();
        let ghost added = (id@, bytes@);
        self.total_bytes = self.total_bytes.saturating_add(bytes.len());
        self.entries.push((id, bytes));
        assert(self.models() =~= before.push(added));
    }
}

/// A size that sticks at the largest value.
pub open spec fn saturated(bytes: nat) -> nat {
    if bytes > usize::MAX {
        usize::MAX as nat
    } else {
        bytes
    }
}

/// What a preload has come to.
#[derive(Debug)]
pub struct ModelPreloadResult {
    pub models: PreloadedModels,
    pub errors: Vec<String>,
}

/// The texts of a list of errors.
pub open spec fn error_texts(errors: Seq<String>) -> Seq<Seq<char>> {
    Seq::new(errors.len(), |i: int| errors[i]@)
}

impl ModelPreloadResult {
    /// Nothing loaded, and nothing wrong.
    pub fn empty() -> (result: Self)
        ensures
            result.models.models() == Seq::<(Seq<char>, Seq<u8>)>::empty(),
            result.models.total() == 0,
            error_texts(result.errors@) == Seq::<Seq<char>>::empty(),
    {
        let result = ModelPreloadResult { models: PreloadedModels::new(), errors: Vec::new() };
        assert(error_texts(result.errors@) =~= Seq::empty());
        result
    }
}

/// Nothing loaded, because of one error.
pub fn preload_error(message: String) -> (result: ModelPreloadResult)
    ensures
        result.models.models() == Seq::<(Seq<char>, Seq<u8>)>::empty(),
        result.models.total() == 0,
        error_texts(result.errors@) == seq![message@],
{
    let ghost text = message@;
    let mut result = ModelPreloadResult::empty();
    result.errors.push(message);
    assert(error_texts(result.errors@) =~= seq![text]);
    result
}

/// What could not be done with a manifest.
#[derive(Clone, Copy, Debug, PartialEq, Eq, Structural)]
pub enum ManifestStage {
    Inspect,
    Read,
    Parse,
}

impl ManifestStage {
    /// The word for a stage.
    pub open spec fn word(self) -> Seq<char> {
        match self {
            ManifestStage::Inspect => "inspect"@,
            ManifestStage::Read => "read"@,
            ManifestStage::Parse => "parse"@,
        }
    }
}

/// The message for a manifest that failed at a stage.
pub open spec fn stage_error(stage: ManifestStage, path: Seq<char>, error: Seq<char>) -> Seq<char> {
    "Could not "@ + stage.word() + " model manifest "@ + path + ": "@ + error
}

/// The message for a manifest that failed at a stage with the given error.
pub fn manifest_failure(stage: ManifestStage, path: &str, error: &str) -> (message: String)
    ensures
        message@ == stage_error(stage, path@, error@),
{
    let mut message = String::from_str("Could not ");
    message.append(
        match stage {
            ManifestStage::Inspect => "inspect",
            ManifestStage::Read => "read",
            ManifestStage::Parse => "parse",
        },
    );
    message.append(" model manifest ");
    message.append(path);
    message.append(": ");
    message.append(error);
    message
}

/// Why a manifest file of this size is not read.
pub open spec fn size_error(path: Seq<char>, bytes: u64) -> Option<Seq<char>> {
    if bytes > MAX_MANIFEST_BYTES {
        Some(
            "Model manifest "@ + path + " is too large ("@ + decimal(bytes as nat)
                + " bytes; maximum "@ + decimal(MAX_MANIFEST_BYTES as nat) + ")"@,
        )
    } else {
        None
    }
}

/// The model of an optional message.
pub open spec fn message_model(message: Option<String>) -> Option<Seq<char>> {
    match message {
        Some(message) => Some(message@),
        None => None,
    }
}

/// Checks the size of a manifest before it is read.
pub fn check_manifest_size(path: &str, bytes: u64) -> (error: Option<String>)
    ensures
        message_model(error) == size_error(path@, bytes),
{
    if bytes <= MAX_MANIFEST_BYTES {
        return None;
    }
    let mut message = String::from_str("Model manifest ");
    message.append(path);
    message.append(" is too large (");
    message.append(decimal_text(bytes).as_str());
    message.append(" bytes; maximum ");
    message.append(decimal_text(MAX_MANIFEST_BYTES).as_str());
    message.append(")");
    Some(message)
}

/// Why a manifest is refused as a whole.
pub open spec fn manifest_error(path: Seq<char>, version: u32, count: int) -> Option<Seq<char>> {
    if version != MANIFEST_VERSION {
        Some(
            "Unsupported model manifest version "@ + decimal(version as nat) + " in "@ + path
                + "; expected "@ + decimal(MANIFEST_VERSION as nat),
        )
    } else if count > MAX_MODEL_COUNT {
        Some(
            "Model manifest "@ + path + " contains "@ + decimal(count as nat)
                + " entries; maximum is "@ + decimal(MAX_MODEL_COUNT as nat),
        )
    } else {
        None
    }
}

/// Checks a manifest before any of its models is loaded.
pub fn check_manifest(path: &str, version: u32, count: usize) -> (error: Option<String>)
    ensures
        message_model(error) == manifest_error(path@, version, count as int),
{
    if version != MANIFEST_VERSION {
        let mut message = String::from_str("Unsupported model manifest version ");
        message.append(decimal_text(version as u64).as_str());
        message.append(" in ");
        message.append(path);
        message.append("; expected ");
        message.append(decimal_text(MANIFEST_VERSION as u64).as_str());
        return Some(message);
    }
    if count > MAX_MODEL_COUNT {
        let mut message = String::from_str("Model manifest ");
        message.append(path);
        message.append(" contains ");
        message.append(decimal_text(count as u64).as_str());
        message.append(" entries; maximum is ");
        message.append(decimal_text(MAX_MODEL_COUNT as u64).as_str());
        return Some(message);
    }
    None
}

/// Why an entry is not loaded, given the ids that came before it.
pub open spec fn entry_error(entry: ModelEntry, ids: Seq<Seq<char>>) -> Option<Seq<char>> {
    if is_blank(entry.id@) {
        Some("Model manifest contains an empty id"@)
    } else if ids.contains(entry.id@) {
        Some("Duplicate model id '"@ + entry.id@ + "'"@)
    } else if !stays_below(entry.file) {
        Some("Model '"@ + entry.id@ + "' uses an unsafe path: "@ + entry.file.text@)
    } else {
        None
    }
}

/// The ids that count as taken once `entry` was looked at.
pub open spec fn ids_after(entry: ModelEntry, ids: Seq<Seq<char>>) -> Seq<Seq<char>> {
    if is_blank(entry.id@) || ids.contains(entry.id@) {
        ids
    } else {
        ids.push(entry.id@)
    }
}

/// Why what was read for an entry is not retained.
pub open spec fn content_error(entry: ModelEntry, bytes: Seq<u8>) -> Option<Seq<char>> {
    match entry.expected_bytes {
        Some(expected) if expected != bytes.len() => Some(
            "Model '"@ + entry.id@ + "' size mismatch: expected "@ + decimal(expected as nat)
                + " bytes, found "@ + decimal(bytes.len()),
        ),
        _ => None,
    }
}

/// The message for a file that could not be read.
pub open spec fn read_error(entry: ModelEntry, path: Seq<char>, error: Seq<char>) -> Seq<char> {
    "Could not preload model '"@ + entry.id@ + "' from "@ + path + ": "@ + error
}

/// The mathematical value of a [`ModelPreloader`].
#[verifier::ext_equal]
pub struct PreloadModel {
    /// The ids that count as taken.
    pub ids: Seq<Seq<char>>,
    /// The models that were loaded.
    pub models: Models,
    /// What all of them hold.
    pub total: nat,
    /// What went wrong.
    pub errors: Seq<Seq<char>>,
}

/// What became of reading the file of an entry.
pub type ReadModel = Result<Seq<u8>, Seq<char>>;

/// Why what reading gave is not retained.
pub open spec fn file_error(entry: ModelEntry, path: Seq<char>, read: ReadModel) -> Option<
    Seq<char>,
> {
    match read {
        Err(error) => Some(read_error(entry, path, error)),
        Ok(bytes) => content_error(entry, bytes),
    }
}

impl PreloadModel {
    /// Nothing loaded, and nothing wrong.
    pub open spec fn empty() -> PreloadModel {
        PreloadModel {
            ids: Seq::empty(),
            models: Seq::empty(),
            total: 0,
            errors: Seq::empty(),
        }
    }

    /// One more thing that went wrong.
    pub open spec fn failed(self, message: Seq<char>) -> PreloadModel {
        PreloadModel { errors: self.errors.push(message), ..self }
    }

    /// The preload once an entry was looked at: one that is refused leaves an error.
    pub open spec fn looked_at(self, entry: ModelEntry) -> PreloadModel {
        let seen = PreloadModel { ids: ids_after(entry, self.ids), ..self };
        match entry_error(entry, self.ids) {
            Some(message) => seen.failed(message),
            None => seen,
        }
    }

    /// The preload once the file of an entry was taken: a model, or an error.
    pub open spec fn taken(self, entry: ModelEntry, path: Seq<char>, read: ReadModel) -> PreloadModel {
        match file_error(entry, path, read) {
            Some(message) => self.failed(message),
            None => PreloadModel {
                models: self.models.push((entry.id@, read->Ok_0)),
                total: saturated(self.total + read->Ok_0.len()),
                ..self
            },
        }
    }

    /// The preload once an entry was dealt with: the file of one that is refused is not read.
    pub open spec fn with_entry(self, listed: ListedModel) -> PreloadModel {
        if entry_error(listed.entry, self.ids) is None {
            self.looked_at(listed.entry).taken(listed.entry, listed.path, listed.read)
        } else {
            self.looked_at(listed.entry)
        }
    }

    /// The preload once the first `count` entries of a manifest were dealt with.
    pub open spec fn of(listed: Seq<ListedModel>, count: int) -> PreloadModel
        decreases count,
    {
        if count <= 0 {
            PreloadModel::empty()
        } else {
            PreloadModel::of(listed, count - 1).with_entry(listed[count - 1])
        }
    }
}

/// An entry of a manifest, the path that is read for it, and what reading gives.
pub struct ListedModel {
    pub entry: ModelEntry,
    pub path: Seq<char>,
    pub read: ReadModel,
}

/// A preload in progress: for each entry in its turn [`ModelPreloader::accept_entry`], and where
/// that admits the entry, [`ModelPreloader::take_file`].
#[derive(Debug)]
pub struct ModelPreloader {
    result: ModelPreloadResult,
    ids: Vec<String>,
}

impl View for ModelPreloader {
    type V = PreloadModel;

    closed spec fn view(&self) -> PreloadModel {
        PreloadModel {
            ids: error_texts(self.ids@),
            models: self.result.models.models(),
            total: self.result.models.total(),
            errors: error_texts(self.result.errors@),
        }
    }
}

/// The model of what was read.
pub open spec fn read_model(read: Result<Arc<[u8]>, String>) -> ReadModel {
    match read {
        Ok(bytes) => Ok(bytes@),
        Err(error) => Err(error@),
    }
}

impl ModelPreloader {
    pub fn new() -> (preloader: Self)
        ensures
            preloader@ == PreloadModel::empty(),
    {
        let preloader = ModelPreloader { result: ModelPreloadResult::empty(), ids: Vec::new() };
        assert(preloader@ =~= PreloadModel::empty());
        preloader
    }

    fn knows(&self, id: &String) -> (known: bool)
        ensures
            known == self@.ids.contains(id@),
    {
        let mut i: usize = 0;
        while i < self.ids.len()
            invariant
                i <= self.ids@.len(),
                self@.ids.len() == self.ids@.len(),
                forall|j: int| 0 <= j < i ==> self@.ids[j] != id@,
            decreases self.ids@.len() - i,
        {
            assert(self@.ids[i as int] == self.ids@[i as int]@);
            if self.ids[i] == *id {
                assert(self@.ids[i as int] == id@);
                return true;
            }
            i += 1;
        }
        false
    }

    fn fail(&mut self, message: String)
        ensures
            final(self)@ == old(self)@.failed(message@),
    {
        let ghost before = self@;
        let ghost text = message@;
        self.result.errors.push(message);
        assert(self@ =~= before.failed(text));
    }

    /// Decides whether the file of `entry` is read. An entry that is refused leaves an error and
    /// nothing else.
    pub fn accept_entry(&mut self, entry: &ModelEntry) -> (admitted: bool)
        ensures
            admitted == (entry_error(*entry, old(self)@.ids) is None),
            final(self)@ == old(self)@.looked_at(*entry),
    {
        if blank(entry.id.as_str()) {
            self.fail(String::from_str("Model manifest contains an empty id"));
            return false;
        }
        if self.knows(&entry.id) {
            let mut message = String::from_str("Duplicate model id '");
            message.append(entry.id.as_str());
            message.append("'");
            self.fail(message);
            return false;
        }
        let ghost before = self@;
        self.ids.push(entry.id.clone());
        assert(self@ =~= (PreloadModel { ids: before.ids.push(entry.id@), ..before }));
        if !safe_relative_model_path(&entry.file) {
            let mut message = String::from_str("Model '");
            message.append(entry.id.as_str());
            message.append("' uses an unsafe path: ");
            message.append(entry.file.text.as_str());
            self.fail(message);
            return false;
        }
        true
    }

    /// Takes what was read for an entry that was admitted. `path` is the path that was read, as it
    /// is shown.
    pub fn take_file(&mut self, entry: &ModelEntry, path: &str, read: Result<Arc<[u8]>, String>)
        ensures
            final(self)@ == old(self)@.taken(*entry, path@, read_model(read)),
    {
        match read {
            Err(error) => {
                let mut message = String::from_str("Could not preload model '");
                message.append(entry.id.as_str());
                message.append("' from ");
                message.append(path);
                message.append(": ");
                message.append(error.as_str());
                self.fail(message);
            },
            Ok(bytes) => {
                let found: u64 = bytes.len() as u64;
                let mismatch = match entry.expected_bytes {
                    Some(expected) => if expected != found {
                        Some(expected)
                    } else {
                        None
                    },
                    None => None,
                };
                if let Some(expected) = mismatch {
                    let mut message = String::from_str("Model '");
                    message.append(entry.id.as_str());
                    message.append("' size mismatch: expected ");
                    message.append(decimal_text(expected).as_str());
                    message.append(" bytes, found ");
                    message.append(decimal_text(found).as_str());
                    self.fail(message);
                } else {
                    self.result.models.insert(entry.id.clone(), bytes);
                }
            },
        }
    }

    /// What the preload has come to.
    pub fn finish(self) -> (result: ModelPreloadResult)
        ensures
            result.models.models() == self@.models,
            result.models.total() == self@.total,
            error_texts(result.errors@) == self@.errors,
    {
        self.result
    }
}

/// Whether an entry is good by itself: it has an id, its path stays below the directory, and its
/// file holds what is expected.
pub open spec fn is_sound(listed: ListedModel) -> bool {
    &&& !is_blank(listed.entry.id@)
    &&& stays_below(listed.entry.file)
    &&& file_error(listed.entry, listed.path, listed.read) is None
}

/// Whether an id stands in one of the first `count` entries.
pub open spec fn is_listed_before(listed: Seq<ListedModel>, count: int, id: Seq<char>) -> bool {
    exists|k: int| 0 <= k < count && (#[trigger] listed[k]).entry.id@ == id
}

proof fn lemma_taken_ids(listed: Seq<ListedModel>, count: int, id: Seq<char>)
    requires
        0 <= count <= listed.len(),
    ensures
        PreloadModel::of(listed, count).ids.contains(id) <==> !is_blank(id) && is_listed_before(
            listed,
            count,
            id,
        ),
    decreases count,
{
    let after = PreloadModel::of(listed, count);
    if count > 0 {
        let before = PreloadModel::of(listed, count - 1);
        let entry = listed[count - 1].entry;
        lemma_taken_ids(listed, count - 1, id);
        lemma_taken_ids(listed, count - 1, entry.id@);
        assert(after.ids == ids_after(entry, before.ids));
        if before.ids.contains(id) {
            let k = choose|k: int| 0 <= k < before.ids.len() && before.ids[k] == id;
            assert(after.ids[k] == id);
            let j = choose|j: int| 0 <= j < count - 1 && (#[trigger] listed[j]).entry.id@ == id;
            assert(listed[j].entry.id@ == id);
        }
        if entry.id@ == id && !is_blank(id) && !before.ids.contains(id) {
            assert(after.ids[before.ids.len() as int] == id);
        }
        if is_listed_before(listed, count, id) {
            let j = choose|j: int| 0 <= j < count && (#[trigger] listed[j]).entry.id@ == id;
            if j < count - 1 {
                assert(is_listed_before(listed, count - 1, id));
            }
        }
    }
}

/// A sound entry is loaded with what was read for it, whatever is wrong with its peers, unless an
/// earlier entry has its id.
pub proof fn law_refused_entries_spare_their_peers(listed: Seq<ListedModel>, count: int, i: int)
    requires
        0 <= i < count <= listed.len(),
        is_sound(listed[i]),
        !is_listed_before(listed, i, listed[i].entry.id@),
    ensures
        PreloadModel::of(listed, count).models.contains(
            (listed[i].entry.id@, listed[i].read->Ok_0),
        ),
    decreases count,
{
    let model = (listed[i].entry.id@, listed[i].read->Ok_0);
    let before = PreloadModel::of(listed, count - 1);
    let after = PreloadModel::of(listed, count);
    if i < count - 1 {
        law_refused_entries_spare_their_peers(listed, count - 1, i);
        let k = choose|k: int| 0 <= k < before.models.len() && before.models[k] == model;
        assert(after.models[k] == model);
    } else {
        lemma_taken_ids(listed, i, listed[i].entry.id@);
        assert(after.models[before.models.len() as int] == model);
    }
}

/// Nothing else is loaded: each model comes from a sound entry, the first with its id.
pub proof fn law_only_sound_entries_are_loaded(listed: Seq<ListedModel>, count: int, m: int) -> (i:
    int)
    requires
        0 <= count <= listed.len(),
        0 <= m < PreloadModel::of(listed, count).models.len(),
    ensures
        0 <= i < count,
        is_sound(listed[i]),
        !is_listed_before(listed, i, listed[i].entry.id@),
        PreloadModel::of(listed, count).models[m] == (
            listed[i].entry.id@,
            listed[i].read->Ok_0,
        ),
    decreases count,
{
    let before = PreloadModel::of(listed, count - 1);
    if m < before.models.len() {
        law_only_sound_entries_are_loaded(listed, count - 1, m)
    } else {
        lemma_taken_ids(listed, count - 1, listed[count - 1].entry.id@);
        count - 1
    }
}

/// Each entry of a manifest is either loaded or explained by an error, and by one only.
pub proof fn law_each_entry_is_loaded_or_explained(listed: Seq<ListedModel>, count: int)
    requires
        0 <= count <= listed.len(),
    ensures
        PreloadModel::of(listed, count).models.len() + PreloadModel::of(listed, count).errors.len()
            == count,
    decreases count,
{
    if count > 0 {
        law_each_entry_is_loaded_or_explained(listed, count - 1);
    }
}

/// No id is loaded twice.
pub proof fn law_an_id_is_loaded_once(listed: Seq<ListedModel>, count: int, a: int, b: int)
    requires
        0 <= count <= listed.len(),
        0 <= a < b < PreloadModel::of(listed, count).models.len(),
    ensures
        PreloadModel::of(listed, count).models[a].0 != PreloadModel::of(listed, count).models[b].0,
    decreases count,
{
    let before = PreloadModel::of(listed, count - 1);
    if b < before.models.len() {
        law_an_id_is_loaded_once(listed, count - 1, a, b);
    } else {
        let i = law_only_sound_entries_are_loaded(listed, count - 1, a);
        lemma_taken_ids(listed, count - 1, listed[count - 1].entry.id@);
        assert(listed[i].entry.id@ == before.models[a].0);
    }
}

/// An admitted model stays below its directory.
pub proof fn law_admitted_models_stay_below_their_directory(
    entry: ModelEntry,
    ids: Seq<Seq<char>>,
)
    requires
        entry_error(entry, ids) is None,
    ensures
        stays_below(entry.file),
        !is_blank(entry.id@),
{
}

/// A path stays below its directory exactly where it is relative, not empty, and made of names alone:
/// no root, prefix, parent or current directory.
pub proof fn law_safe_paths_hold_names_alone(path: ModelPath)
    ensures
        stays_below(path) <==> !path.is_empty && !path.is_absolute && forall|i: int|
            0 <= i < path.components@.len() ==> !((#[trigger] path.components@[i])
                == PathComponent::Prefix || path.components@[i] == PathComponent::RootDir
                || path.components@[i] == PathComponent::CurDir || path.components@[i]
                == PathComponent::ParentDir),
{
    if !path.is_empty && !path.is_absolute && forall|i: int|
        0 <= i < path.components@.len() ==> !((#[trigger] path.components@[i])
            == PathComponent::Prefix || path.components@[i] == PathComponent::RootDir
            || path.components@[i] == PathComponent::CurDir || path.components@[i]
            == PathComponent::ParentDir) {
        assert forall|i: int| 0 <= i < path.components@.len() implies (#[trigger] path.components@[i])
            == PathComponent::Normal by {
            assert(path.components@[i] != PathComponent::Prefix);
        }
    }
}

/// An id says something exactly where it holds a character that is no white space.
pub proof fn law_blank_ids_hold_white_space_alone(text: Seq<char>, i: int)
    ensures
        is_blank(Seq::empty()),
        is_blank(text) && 0 <= i < text.len() ==> is_white_space(text[i]),
        0 <= i < text.len() && 0x21 <= text[i] as u32 <= 0x7E ==> !is_blank(text),
        (forall|j: int| 0 <= j < text.len() ==> (#[trigger] text[j]) == ' ') ==> is_blank(text),
{
    if 0 <= i < text.len() && 0x21 <= text[i] as u32 <= 0x7E {
        assert(!is_white_space(text[i]));
    }
}

/// An entry is refused for a blank id, else for one that is taken, else for its path, and is admitted
/// otherwise. Its id is taken from then on, unless it was blank.
pub proof fn law_entries_are_admitted_in_order(entry: ModelEntry, ids: Seq<Seq<char>>)
    ensures
        entry_error(entry, ids) is None <==> !is_blank(entry.id@) && !ids.contains(entry.id@)
            && stays_below(entry.file),
        is_blank(entry.id@) ==> entry_error(entry, ids) == Some(
            "Model manifest contains an empty id"@,
        ),
        !is_blank(entry.id@) && ids.contains(entry.id@) ==> entry_error(entry, ids) == Some(
            "Duplicate model id '"@ + entry.id@ + "'"@,
        ),
        !is_blank(entry.id@) && !ids.contains(entry.id@) && !stays_below(entry.file) ==> entry_error(
            entry,
            ids,
        ) == Some("Model '"@ + entry.id@ + "' uses an unsafe path: "@ + entry.file.text@),
        !is_blank(entry.id@) ==> ids_after(entry, ids).contains(entry.id@),
        is_blank(entry.id@) ==> ids_after(entry, ids) == ids,
        forall|id: Seq<char>|
            id != entry.id@ ==> (#[trigger] ids_after(entry, ids).contains(id) <==> ids.contains(
                id,
            )),
{
    let after = ids_after(entry, ids);
    if !is_blank(entry.id@) && !ids.contains(entry.id@) {
        assert(after[ids.len() as int] == entry.id@);
    }
    assert forall|id: Seq<char>| id != entry.id@ implies (#[trigger] after.contains(id)
        <==> ids.contains(id)) by {
        if ids.contains(id) {
            let k = choose|k: int| 0 <= k < ids.len() && ids[k] == id;
            assert(after[k] == id);
        }
        if after.contains(id) {
            let k = choose|k: int| 0 <= k < after.len() && after[k] == id;
            if k < ids.len() {
                assert(ids[k] == id);
            }
        }
    }
}

/// A file is refused exactly where it could not be read, or a size is expected that it does not have.
pub proof fn law_files_have_their_expected_size(
    entry: ModelEntry,
    path: Seq<char>,
    bytes: Seq<u8>,
    error: Seq<char>,
)
    ensures
        file_error(entry, path, Err(error)) == Some(
            "Could not preload model '"@ + entry.id@ + "' from "@ + path + ": "@ + error,
        ),
        file_error(entry, path, Ok(bytes)) is None <==> (entry.expected_bytes matches Some(expected)
            ==> expected == bytes.len()),
        entry.expected_bytes matches Some(expected) && expected != bytes.len() ==> file_error(
            entry,
            path,
            Ok(bytes),
        ) == Some(
            "Model '"@ + entry.id@ + "' size mismatch: expected "@ + decimal(
                entry.expected_bytes->0 as nat,
            ) + " bytes, found "@ + decimal(bytes.len()),
        ),
{
}

/// A manifest is refused as a whole exactly where it is larger than a mebibyte, of another version than
/// the first, or lists more than 64 models.
pub proof fn law_manifests_are_bounded(path: Seq<char>, bytes: u64, version: u32, count: int)
    ensures
        size_error(path, bytes) is None <==> bytes <= 1_048_576,
        manifest_error(path, version, count) is None <==> version == 1 && count <= 64,
        bytes > 1_048_576 ==> size_error(path, bytes) == Some(
            "Model manifest "@ + path + " is too large ("@ + decimal(bytes as nat)
                + " bytes; maximum "@ + decimal(1_048_576) + ")"@,
        ),
        version != 1 ==> manifest_error(path, version, count) == Some(
            "Unsupported model manifest version "@ + decimal(version as nat) + " in "@ + path
                + "; expected "@ + decimal(1),
        ),
        version == 1 && count > 64 ==> manifest_error(path, version, count) == Some(
            "Model manifest "@ + path + " contains "@ + decimal(count as nat)
                + " entries; maximum is "@ + decimal(64),
        ),
{
}

/// A loaded model adds its bytes to the total, an error adds none, and what was loaded before stays.
pub proof fn law_models_add_up(preload: PreloadModel, listed: ListedModel)
    ensures
        ({
            let after = preload.with_entry(listed);
            let loaded = entry_error(listed.entry, preload.ids) is None && file_error(
                listed.entry,
                listed.path,
                listed.read,
            ) is None;
            &&& loaded ==> {
                &&& after.models.len() == preload.models.len() + 1
                &&& after.models.drop_last() == preload.models
                &&& after.models.last().0 == listed.entry.id@
                &&& Ok::<Seq<u8>, Seq<char>>(after.models.last().1) == listed.read
                &&& after.errors == preload.errors
                &&& preload.total + after.models.last().1.len() <= usize::MAX ==> after.total
                    == preload.total + after.models.last().1.len()
            }
            &&& !loaded ==> {
                &&& after.models == preload.models
                &&& after.total == preload.total
                &&& after.errors.len() == preload.errors.len() + 1
                &&& after.errors.drop_last() == preload.errors
            }
            &&& entry_error(listed.entry, preload.ids) matches Some(message) ==> after.errors.last()
                == message
            &&& entry_error(listed.entry, preload.ids) is None ==> (file_error(
                listed.entry,
                listed.path,
                listed.read,
            ) matches Some(message) ==> after.errors.last() == message)
        }),
{
    let after = preload.with_entry(listed);
    if after.models.len() > preload.models.len() {
        assert(after.models.drop_last() =~= preload.models);
    } else {
        assert(after.errors.drop_last() =~= preload.errors);
    }
}

/// White space is what Unicode says: tab to carriage return, the space, the next line, the no-break
/// space, the Ogham space, the eleven typographic spaces, the two separators, the narrow no-break space,
/// the mathematical space and the ideographic space.
pub proof fn law_white_space_is_unicodes(c: char)
    ensures
        is_white_space(c) <==> {
            let code = c as u32;
            ||| code == 0x09 || code == 0x0A || code == 0x0B || code == 0x0C || code == 0x0D
            ||| code == 0x20 || code == 0x85 || code == 0xA0 || code == 0x1680
            ||| code == 0x2000 || code == 0x2001 || code == 0x2002 || code == 0x2003
            ||| code == 0x2004 || code == 0x2005 || code == 0x2006 || code == 0x2007
            ||| code == 0x2008 || code == 0x2009 || code == 0x200A
            ||| code == 0x2028 || code == 0x2029 || code == 0x202F || code == 0x205F
            ||| code == 0x3000
        },
{
}

/// An entry is admitted exactly where its id says something, is not taken, and its path stays below the
/// directory; its id is taken from then on unless it says nothing, and a refusal leaves one error. Models
/// that were loaded stay.
pub proof fn law_admission_is_exact(
    preloader: &mut ModelPreloader,
    entry: &ModelEntry,
    admitted: bool,
)
    requires
        call_ensures(ModelPreloader::accept_entry, (preloader, entry), admitted),
    ensures
        admitted <==> !is_blank(entry.id@) && !old(preloader)@.ids.contains(entry.id@)
            && stays_below(entry.file),
        admitted ==> final(preloader)@.errors == old(preloader)@.errors,
        !admitted ==> final(preloader)@.errors.len() == old(preloader)@.errors.len() + 1 && final(preloader)@.errors.drop_last() == old(preloader)@.errors,
        final(preloader)@.models == old(preloader)@.models,
        final(preloader)@.total == old(preloader)@.total,
        !is_blank(entry.id@) ==> final(preloader)@.ids.contains(entry.id@),
{
    law_entries_are_admitted_in_order(*entry, old(preloader)@.ids);
    if !admitted {
        assert(final(preloader)@.errors.drop_last() =~= old(preloader)@.errors);
    }
}

/// A file that was read is retained under its entry's id exactly where its size is the expected one, if any
/// is; every other outcome leaves one error and no model.
pub proof fn law_read_files_are_retained(
    preloader: &mut ModelPreloader,
    entry: &ModelEntry,
    path: &str,
    read: Result<Arc<[u8]>, String>,
)
    requires
        call_ensures(ModelPreloader::take_file, (preloader, entry, path, read), ()),
    ensures
        ({
            let good = read matches Ok(bytes) && (entry.expected_bytes matches Some(expected)
                ==> expected == bytes@.len());
            &&& good ==> final(preloader)@.models.len() == old(preloader)@.models.len() + 1 && final(preloader)@.models.drop_last() == old(preloader)@.models && final(preloader)@.models.last().0
                == entry.id@ && final(preloader)@.models.last().1 == read->Ok_0@ && final(preloader)@.errors == old(preloader)@.errors
            &&& !good ==> final(preloader)@.models == old(preloader)@.models && final(preloader)@.total == old(preloader)@.total && final(preloader)@.errors.len() == old(preloader)@.errors.len() + 1
            &&& final(preloader)@.ids == old(preloader)@.ids
        }),
{
    if final(preloader)@.models.len() > old(preloader)@.models.len() {
        assert(final(preloader)@.models.drop_last() =~= old(preloader)@.models);
    }
}

/// A model is found by its id with its bytes, exactly where one was loaded.
pub proof fn law_models_are_found_by_id(
    models: &PreloadedModels,
    id: &String,
    found: Option<Arc<[u8]>>,
    i: int,
)
    requires
        call_ensures(PreloadedModels::get, (models, id), found),
        forall|a: int, b: int|
            0 <= a < b < models.models().len() ==> (#[trigger] models.models()[a]).0 != (
            #[trigger] models.models()[b]).0,
    ensures
        0 <= i < models.models().len() && models.models()[i].0 == id@ ==> (found matches Some(bytes)
            && bytes@ == models.models()[i].1),
        (forall|j: int| 0 <= j < models.models().len() ==> (#[trigger] models.models()[j]).0 != id@)
            ==> found is None,
{
    if 0 <= i < models.models().len() && models.models()[i].0 == id@ {
        if let Some(bytes) = found {
            let k = choose|k: int|
                0 <= k < models.models().len() && (#[trigger] models.models()[k]) == (id@, bytes@)
                    && forall|j: int| 0 <= j < k ==> (#[trigger] models.models()[j]).0 != id@;
            if k < i {
                assert(models.models()[k].0 != models.models()[i].0);
            } else if i < k {
                assert(models.models()[i].0 != models.models()[k].0);
            }
        }
    }
}

} // verus!
