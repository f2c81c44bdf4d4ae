//! The texture atlas: every image is loaded at most once and afterwards found
//! again under its logical path.

use vstd::prelude::*;

verus! {

/// Why an image could not be turned into a texture.
#[derive(Clone, Copy, Debug, PartialEq, Eq, Structural)]
pub enum TextureLoadError {
    /// The file is missing or cannot be read.
    Unreadable,
    /// The file is not an image in a supported format, or is corrupt.
    Unsupported,
}

/// One resident texture together with the path it was loaded from.
pub struct TextureEntry<T> {
    path: String,
    texture: T,
}

/// Owns the loaded textures. A texture is identified by its position in the
/// atlas, which never changes once the texture is resident.
pub struct TextureAtlas<T> {
    entries: Vec<TextureEntry<T>>,
}

/// True when some entry was loaded from `path`.
pub open spec fn resident<T>(entries: Seq<(Seq<char>, T)>, path: Seq<char>) -> bool {
    exists|i: int| 0 <= i < entries.len() && (#[trigger] entries[i]).0 == path
}

/// The position of the entry loaded from `path`, where there is one.
pub open spec fn slot_of<T>(entries: Seq<(Seq<char>, T)>, path: Seq<char>) -> int {
    choose|i: int| 0 <= i < entries.len() && (#[trigger] entries[i]).0 == path
}

/// No two entries were loaded from the same path.
pub open spec fn distinct_paths<T>(entries: Seq<(Seq<char>, T)>) -> bool {
    forall|i: int, j: int|
        0 <= i < j < entries.len() ==> (#[trigger] entries[i]).0 != (#[trigger] entries[j]).0
}

/// The atlas after the outcome of a load has been handed in for `path`: a
/// resident path keeps its entry, a fresh texture is appended, and a failed
/// load leaves the atlas as it was.
pub open spec fn install_entries<T>(
    entries: Seq<(Seq<char>, T)>,
    path: Seq<char>,
    outcome: Result<T, TextureLoadError>,
) -> Seq<(Seq<char>, T)> {
    if resident(entries, path) {
        entries
    } else {
        match outcome {
            Ok(texture) => entries.push((path, texture)),
            Err(_) => entries,
        }
    }
}

/// What is answered when the outcome of a load is handed in for `path`.
pub open spec fn install_result<T>(
    entries: Seq<(Seq<char>, T)>,
    path: Seq<char>,
    outcome: Result<T, TextureLoadError>,
) -> Result<int, TextureLoadError> {
    if resident(entries, path) {
        Ok(slot_of(entries, path))
    } else {
        match outcome {
            Ok(_) => Ok(entries.len() as int),
            Err(e) => Err(e),
        }
    }
}

/// The paths of the entries, in order.
pub open spec fn paths_of<T>(entries: Seq<(Seq<char>, T)>) -> Seq<Seq<char>> {
    Seq::new(entries.len(), |i: int| entries[i].0)
}

/// The paths of an atlas that started with `paths` once the paths `asked`
/// have been asked for in order and every load succeeded: each path that
/// was not there yet follows the others, in the order of the first request
/// for it.
pub open spec fn paths_after(paths: Seq<Seq<char>>, asked: Seq<Seq<char>>) -> Seq<Seq<char>>
    decreases asked.len(),
{
    if asked.len() == 0 {
        paths
    } else {
        let earlier = paths_after(paths, asked.drop_last());
        if earlier.contains(asked.last()) {
            earlier
        } else {
            earlier.push(asked.last())
        }
    }
}

/// A path is resident exactly when it is among the paths of the atlas.
pub proof fn lemma_resident_is_contained<T>(entries: Seq<(Seq<char>, T)>, path: Seq<char>)
    ensures
        resident(entries, path) <==> paths_of(entries).contains(path),
{
    if resident(entries, path) {
        let i = choose|i: int| 0 <= i < entries.len() && (#[trigger] entries[i]).0 == path;
        assert(paths_of(entries)[i] == path);
    }
    if paths_of(entries).contains(path) {
        let i = choose|i: int| 0 <= i < paths_of(entries).len() && paths_of(entries)[i] == path;
        assert(entries[i].0 == path);
    }
}

/// Asking for one path adds it behind the others unless it is there.
pub proof fn lemma_paths_after_one(paths: Seq<Seq<char>>, path: Seq<char>)
    ensures
        paths_after(paths, seq![path]) == if paths.contains(path) {
            paths
        } else {
            paths.push(path)
        },
{
    assert(seq![path].drop_last() =~= Seq::<Seq<char>>::empty());
    assert(paths_after(paths, seq![path].drop_last()) == paths);
}

/// Asking for two runs of paths one after the other is asking for them all
/// in one run.
pub proof fn lemma_paths_after_both(
    paths: Seq<Seq<char>>,
    first: Seq<Seq<char>>,
    second: Seq<Seq<char>>,
)
    ensures
        paths_after(paths, first + second) == paths_after(paths_after(paths, first), second),
    decreases second.len(),
{
    if second.len() == 0 {
        assert(first + second =~= first);
    } else {
        lemma_paths_after_both(paths, first, second.drop_last());
        assert((first + second).drop_last() =~= first + second.drop_last());
        assert((first + second).last() == second.last());
    }
}

/// The entry holds a texture that the loader gave for the entry's path.
pub open spec fn loaded_by<T, F: Fn(&String) -> Result<T, TextureLoadError>>(
    load: F,
    entry: (Seq<char>, T),
) -> bool {
    exists|path: String|
        path@ == entry.0 && #[trigger] call_ensures(
            load,
            (&path,),
            Ok::<T, TextureLoadError>(entry.1),
        )
}

/// An answer of the atlas with its position taken as a number.
pub open spec fn as_position(answer: Result<usize, TextureLoadError>) -> Result<
    int,
    TextureLoadError,
> {
    match answer {
        Ok(id) => Ok(id as int),
        Err(e) => Err(e),
    }
}

/// Once a path has been answered with a texture, every later request for it
/// is answered with the same position, whatever a loader would have produced,
/// and stores nothing: the atlas, and with it the number of loads, stays as
/// it was after the first request.
pub proof fn lemma_repeated_request_reuses_texture<T>(
    entries: Seq<(Seq<char>, T)>,
    path: Seq<char>,
    first: Result<T, TextureLoadError>,
    second: Result<T, TextureLoadError>,
)
    requires
        distinct_paths(entries),
        install_result(entries, path, first) is Ok,
    ensures
        ({
            let after = install_entries(entries, path, first);
            &&& distinct_paths(after)
            &&& resident(after, path)
            &&& slot_of(after, path) == install_result(entries, path, first)->Ok_0
            &&& install_entries(after, path, second) == after
            &&& install_result(after, path, second) == install_result(entries, path, first)
        }),
{
    let after = install_entries(entries, path, first);
    let id = install_result(entries, path, first)->Ok_0;
    if resident(entries, path) {
        assert(after == entries);
    } else {
        assert(after == entries.push((path, first->Ok_0)));
        assert(after[entries.len() as int].0 == path);
    }
    assert(0 <= id < after.len() && after[id].0 == path);
    assert(resident(after, path));
    let slot = slot_of(after, path);
    assert(slot == id) by {
        if slot < id {
            assert(after[slot].0 != after[id].0);
        } else if id < slot {
            assert(after[id].0 != after[slot].0);
        }
    }
}

/// Handing in an outcome never moves or replaces a resident texture: the old
/// atlas is the front part of the new one, so positions handed out earlier
/// stay good, and the atlas never shrinks.
pub proof fn lemma_install_keeps_residents<T>(
    entries: Seq<(Seq<char>, T)>,
    path: Seq<char>,
    outcome: Result<T, TextureLoadError>,
)
    ensures
        ({
            let after = install_entries(entries, path, outcome);
            &&& entries.len() <= after.len() <= entries.len() + 1
            &&& after.subrange(0, entries.len() as int) == entries
            &&& outcome is Err ==> after == entries
            &&& distinct_paths(entries) ==> distinct_paths(after)
        }),
{
    let after = install_entries(entries, path, outcome);
    assert(after.subrange(0, entries.len() as int) =~= entries);
}

impl<T> TextureEntry<T> {
    pub closed spec fn view(&self) -> (Seq<char>, T) {
        (self.path@, self.texture)
    }
}

impl<T> TextureAtlas<T> {
    /// The resident textures in the order in which they were loaded, each
    /// with its path.
    pub closed spec fn view(&self) -> Seq<(Seq<char>, T)> {
        Seq::new(self.entries@.len(), |i: int| self.entries@[i]@)
    }

    /// The atlas holds no path twice.
    pub open spec fn wf(&self) -> bool {
        distinct_paths(self@)
    }

    /// An atlas without textures.
    pub fn new() -> (atlas: Self)
        ensures
            atlas@ == Seq::<(Seq<char>, T)>::empty(),
            atlas.wf(),
    {
        let atlas = TextureAtlas { entries: Vec::new() };
        assert(atlas@ =~= Seq::<(Seq<char>, T)>::empty());
        atlas
    }

    /// How many textures have been loaded so far.
    pub fn len(&self) -> (n: usize)
        ensures
            n == self@.len(),
    {
        self.entries.len()
    }

    /// The position of the texture loaded from `path`, if it is resident.
    pub fn find(&self, path: &String) -> (found: Option<usize>)
        requires
            self.wf(),
        ensures
            found is Some <==> resident(self@, path@),
            found matches Some(id) ==> id == slot_of(self@, path@) && id < self@.len()
                && self@[id as int].0 == path@,
    {
        let mut i: usize = 0;
        while i < self.entries.len()
            invariant
                self.wf(),
                i <= self.entries.len(),
                forall|k: int| 0 <= k < i ==> (#[trigger] self@[k]).0 != path@,
            decreases self.entries.len() - i,
        {
            if self.entries[i].path == *path {
                assert(self@[i as int].0 == path@);
                return Some(i);
            }
            i += 1;
        }
        None
    }

    /// Takes the outcome of loading `path`. A path that is already resident
    /// keeps its texture and its position, and the outcome is dropped; a
    /// fresh texture is stored behind all others; a failure is passed on and
    /// nothing is stored.
    pub fn install(&mut self, path: String, outcome: Result<T, TextureLoadError>) -> (installed: Result<
        usize,
        TextureLoadError,
    >)
        requires
            old(self).wf(),
        ensures
            final(self).wf(),
            final(self)@ == install_entries(old(self)@, path@, outcome),
            as_position(installed) == install_result(old(self)@, path@, outcome),
            installed matches Ok(id) ==> id < final(self)@.len() && final(self)@[id as int].0
                == path@,
            installed is Ok ==> paths_of(final(self)@) == paths_after(
                paths_of(old(self)@),
                seq![path@],
            ),
            installed is Err ==> final(self)@ == old(self)@ && !resident(old(self)@, path@),
    {
        proof {
            lemma_resident_is_contained(self@, path@);
            lemma_paths_after_one(paths_of(self@), path@);
        }
        match self.find(&path) {
            Some(id) => Ok(id),
            None => match outcome {
                Ok(texture) => {
                    let id: usize = self.entries.len();
                    let ghost before = self@;
                    self.entries.push(TextureEntry { path, texture });
                    assert(self@ =~= before.push((path@, texture)));
                    assert(paths_of(self@) =~= paths_of(before).push(path@));
                    Ok(id)
                },
                Err(e) => Err(e),
            },
        }
    }

    /// The texture for `path`: the resident one where there is one, without
    /// calling `load`; otherwise whatever `load` produces, installed in the
    /// atlas.
    pub fn get<F: Fn(&String) -> Result<T, TextureLoadError>>(&mut self, path: String, load: &F) -> (got:
        Result<usize, TextureLoadError>)
        requires
            old(self).wf(),
            !resident(old(self)@, path@) ==> call_requires(*load, (&path,)),
        ensures
            final(self).wf(),
            got matches Ok(id) ==> id < final(self)@.len() && final(self)@[id as int].0 == path@,
            got is Ok ==> paths_of(final(self)@) == paths_after(paths_of(old(self)@), seq![path@]),
            got is Err ==> final(self)@ == old(self)@ && !resident(old(self)@, path@),
            forall|i: int|
                old(self)@.len() <= i < final(self)@.len() ==> (#[trigger] final(self)@[i]).0
                    == path@ && loaded_by(*load, final(self)@[i]),
            resident(old(self)@, path@) ==> final(self)@ == old(self)@ && got == Ok::<
                usize,
                TextureLoadError,
            >(slot_of(old(self)@, path@) as usize),
            !resident(old(self)@, path@) ==> exists|outcome: Result<T, TextureLoadError>|
                {
                    &&& #[trigger] call_ensures(*load, (&path,), outcome)
                    &&& final(self)@ == install_entries(old(self)@, path@, outcome)
                    &&& as_position(got) == install_result(old(self)@, path@, outcome)
                },
    {
        proof {
            lemma_resident_is_contained(self@, path@);
            lemma_paths_after_one(paths_of(self@), path@);
        }
        match self.find(&path) {
            Some(id) => Ok(id),
            None => {
                let outcome = load(&path);
                let ghost asked = path;
                let got = self.install(path, outcome);
                proof {
                    assert forall|i: int| old(self)@.len() <= i < self@.len() implies (
                    #[trigger] self@[i]).0 == asked@ && loaded_by(*load, self@[i]) by {
                        assert(outcome is Ok);
                        assert(self@[i] == (asked@, outcome->Ok_0));
                        assert(call_ensures(*load, (&asked,), Ok::<T, TextureLoadError>(self@[i].1)));
                    }
                }
                got
            },
        }
    }

    /// The texture at position `id`.
    pub fn texture(&self, id: usize) -> (texture: &T)
        requires
            id < self@.len(),
        ensures
            *texture == self@[id as int].1,
    {
        &self.entries[id].texture
    }

    /// The path that the texture at position `id` was loaded from.
    pub fn path(&self, id: usize) -> (path: &String)
        requires
            id < self@.len(),
        ensures
            path@ == self@[id as int].0,
    {
        &self.entries[id].path
    }
}

} // verus!
