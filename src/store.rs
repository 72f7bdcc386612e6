//! The wallet directory: which files it holds, which one is active, and what each
//! wallet operation changes on disk.
//!
//! Operations are decided on a snapshot of the directory. Each one either refuses with a
//! `WalletFault` or yields the single `Step` to carry out on disk, so a refused operation
//! touches nothing.
use vstd::prelude::*;
use crate::names::{
    active_from_pointer, active_name_from_pointer, ends_with_suffix, has_char, has_parent_token,
    has_wallet_suffix, import_name, import_name_of, is_valid_wallet_name, lemma_trim_stable,
    lemma_valid_name_end, same_text, valid_wallet_name, white_space,
};

verus! {

/// Why a wallet operation was refused; each variant carries the offending name.
#[derive(PartialEq, Eq, Clone, Debug)]
pub enum WalletFault<S> {
    InvalidName(S),
    NotFound(S),
    AlreadyExists(S),
    CannotDeleteActive(S),
}

/// The one change on disk that an accepted wallet operation asks for.
#[derive(PartialEq, Eq, Clone, Debug)]
pub enum Step<S> {
    /// Write this name into the active-wallet pointer.
    WritePointer(S),
    /// Rename a wallet file; with `repoint`, the pointer then names `to`.
    Rename { from: S, to: S, repoint: bool },
    /// Remove a wallet file.
    Remove(S),
    /// Copy the picked file into the directory under this name.
    Import(S),
}

/// The directory as a set of file names and the pointer's text, if it could be read.
pub struct DirModel {
    pub files: Set<Seq<char>>,
    pub pointer: Option<Seq<char>>,
}

pub type Outcome = Result<Step<Seq<char>>, WalletFault<Seq<char>>>;

pub open spec fn fault_view(f: WalletFault<String>) -> WalletFault<Seq<char>> {
    match f {
        WalletFault::InvalidName(n) => WalletFault::InvalidName(n@),
        WalletFault::NotFound(n) => WalletFault::NotFound(n@),
        WalletFault::AlreadyExists(n) => WalletFault::AlreadyExists(n@),
        WalletFault::CannotDeleteActive(n) => WalletFault::CannotDeleteActive(n@),
    }
}

pub open spec fn step_view(s: Step<String>) -> Step<Seq<char>> {
    match s {
        Step::WritePointer(n) => Step::WritePointer(n@),
        Step::Rename { from, to, repoint } => Step::Rename { from: from@, to: to@, repoint },
        Step::Remove(n) => Step::Remove(n@),
        Step::Import(n) => Step::Import(n@),
    }
}

pub open spec fn outcome_view(r: Result<Step<String>, WalletFault<String>>) -> Outcome {
    match r {
        Ok(s) => Ok(step_view(s)),
        Err(f) => Err(fault_view(f)),
    }
}

pub open spec fn text_view(s: Option<String>) -> Option<Seq<char>> {
    match s {
        Some(t) => Some(t@),
        None => None,
    }
}

pub open spec fn string_views(v: Seq<String>) -> Seq<Seq<char>> {
    v.map_values(|s: String| s@)
}

/// The name of the active wallet in a directory.
pub open spec fn active_of(d: DirModel) -> Seq<char> {
    active_from_pointer(d.pointer)
}

/// The wallet files of a directory: its files whose names carry the suffix.
pub open spec fn listed(d: DirModel) -> Set<Seq<char>> {
    d.files.filter(|n: Seq<char>| ends_with_suffix(n))
}

/// Order of `String`: lexicographic over code points, which is the order of their UTF-8 bytes.
pub open spec fn lex_le(a: Seq<char>, b: Seq<char>) -> bool
    decreases a.len(),
{
    if a.len() == 0 {
        true
    } else if b.len() == 0 {
        false
    } else if a[0] == b[0] {
        lex_le(a.drop_first(), b.drop_first())
    } else {
        (a[0] as u32) < (b[0] as u32)
    }
}

pub open spec fn sorted_names(s: Seq<Seq<char>>) -> bool {
    forall|i: int, j: int| 0 <= i < j < s.len() ==> lex_le(s[i], s[j])
}

pub open spec fn switch_outcome(d: DirModel, name: Seq<char>) -> Outcome {
    if !valid_wallet_name(name) {
        Err(WalletFault::InvalidName(name))
    } else if !d.files.contains(name) {
        Err(WalletFault::NotFound(name))
    } else {
        Ok(Step::WritePointer(name))
    }
}

pub open spec fn rename_outcome(d: DirModel, old_name: Seq<char>, new_name: Seq<char>) -> Outcome {
    if !valid_wallet_name(old_name) {
        Err(WalletFault::InvalidName(old_name))
    } else if !valid_wallet_name(new_name) {
        Err(WalletFault::InvalidName(new_name))
    } else if !d.files.contains(old_name) {
        Err(WalletFault::NotFound(old_name))
    } else if d.files.contains(new_name) {
        Err(WalletFault::AlreadyExists(new_name))
    } else {
        Ok(Step::Rename { from: old_name, to: new_name, repoint: active_of(d) == old_name })
    }
}

pub open spec fn delete_outcome(d: DirModel, name: Seq<char>) -> Outcome {
    if !valid_wallet_name(name) {
        Err(WalletFault::InvalidName(name))
    } else if name == active_of(d) {
        Err(WalletFault::CannotDeleteActive(name))
    } else if !d.files.contains(name) {
        Err(WalletFault::NotFound(name))
    } else {
        Ok(Step::Remove(name))
    }
}

pub open spec fn import_outcome(d: DirModel, file_name: Seq<char>) -> Outcome {
    let dest = import_name_of(file_name);
    if !valid_wallet_name(dest) {
        Err(WalletFault::InvalidName(dest))
    } else if d.files.contains(dest) {
        Err(WalletFault::AlreadyExists(dest))
    } else {
        Ok(Step::Import(dest))
    }
}

/// The directory after a step has been carried out on it.
pub open spec fn apply_step(d: DirModel, s: Step<Seq<char>>) -> DirModel {
    match s {
        Step::WritePointer(n) => DirModel { files: d.files, pointer: Some(n) },
        Step::Rename { from, to, repoint } => DirModel {
            files: d.files.remove(from).insert(to),
            pointer: if repoint {
                Some(to)
            } else {
                d.pointer
            },
        },
        Step::Remove(n) => DirModel { files: d.files.remove(n), pointer: d.pointer },
        Step::Import(n) => DirModel { files: d.files.insert(n), pointer: d.pointer },
    }
}

/// Relies on `slice::sort` over `String`: a permutation of the items, ordered by
/// `Ord for String`.
#[verifier::external_body]
fn sort_strings(v: &mut Vec<String>)
    ensures
        string_views(final(v)@).to_multiset() == string_views(old(v)@).to_multiset(),
        sorted_names(string_views(final(v)@)),
{
    v.sort();
}

/// A snapshot of the application directory: the names of its regular files, and the
/// pointer file's text (`None` where it is absent or could not be read).
#[derive(PartialEq, Eq, Clone, Debug)]
pub struct WalletDir {
    pub files: Vec<String>,
    pub pointer: Option<String>,
}

impl WalletDir {
    pub open spec fn model(&self) -> DirModel {
        DirModel { files: string_views(self.files@).to_set(), pointer: text_view(self.pointer) }
    }

    pub fn new(files: Vec<String>, pointer: Option<String>) -> (r: WalletDir)
        ensures
            r.files@ == files@,
            r.pointer == pointer,
    {
        WalletDir { files, pointer }
    }

    /// Whether the directory holds a file of this name.
    pub fn contains(&self, name: &str) -> (r: bool)
        ensures
            r == self.model().files.contains(name@),
    {
        let mut i: usize = 0;
        while i < self.files.len()
            invariant
                0 <= i <= self.files@.len(),
                forall|j: int| 0 <= j < i ==> self.files@[j]@ != name@,
            decreases self.files@.len() - i,
        {
            if same_text(self.files[i].as_str(), name) {
                assert(string_views(self.files@)[i as int] == name@);
                return true;
            }
            i = i + 1;
        }
        assert(!string_views(self.files@).contains(name@));
        false
    }

    /// The active wallet: the pointer's trimmed text, or the default name.
    pub fn active_name(&self) -> (r: String)
        ensures
            r@ == active_of(self.model()),
    {
        active_name_from_pointer(&self.pointer)
    }

    /// The wallet files, sorted.
    pub fn list(&self) -> (r: Vec<String>)
        ensures
            forall|n: Seq<char>| string_views(r@).contains(n) <==> listed(self.model()).contains(n),
            sorted_names(string_views(r@)),
    {
        let mut out: Vec<String> = Vec::new();
        let mut i: usize = 0;
        while i < self.files.len()
            invariant
                0 <= i <= self.files@.len(),
                forall|n: Seq<char>|
                    string_views(out@).contains(n) <==> (exists|j: int|
                        0 <= j < i && #[trigger] self.files@[j]@ == n && ends_with_suffix(n)),
            decreases self.files@.len() - i,
        {
            let f = &self.files[i];
            let ghost before = string_views(out@);
            let keep = has_wallet_suffix(f.as_str());
            if keep {
                out.push(f.clone());
                proof {
                    assert(string_views(out@) =~= before.push(f@));
                }
            }
            proof {
                assert forall|n: Seq<char>|
                    string_views(out@).contains(n) <==> (exists|j: int|
                        0 <= j < i + 1 && #[trigger] self.files@[j]@ == n && ends_with_suffix(
                            n,
                        )) by {
                    if string_views(out@).contains(n) {
                        if before.contains(n) {
                            let j = choose|j: int|
                                0 <= j < i && #[trigger] self.files@[j]@ == n && ends_with_suffix(
                                    n,
                                );
                            assert(0 <= j < i + 1);
                        } else {
                            let k = choose|k: int|
                                0 <= k < string_views(out@).len() && string_views(out@)[k] == n;
                            assert(keep);
                            assert(k == before.len());
                            assert(self.files@[i as int]@ == n);
                        }
                    }
                    if exists|j: int|
                        0 <= j < i + 1 && #[trigger] self.files@[j]@ == n && ends_with_suffix(n) {
                        let j = choose|j: int|
                            0 <= j < i + 1 && #[trigger] self.files@[j]@ == n && ends_with_suffix(
                                n,
                            );
                        if j < i {
                            assert(before.contains(n));
                            let k = choose|k: int| 0 <= k < before.len() && before[k] == n;
                            if keep {
                                assert(string_views(out@)[k] == n);
                            }
                        } else {
                            assert(keep);
                            assert(string_views(out@)[before.len() as int] == n);
                        }
                    }
                }
            }
            i = i + 1;
        }
        let ghost unsorted = string_views(out@);
        sort_strings(&mut out);
        proof {
            broadcast use vstd::seq_lib::to_multiset_contains;

            assert forall|n: Seq<char>|
                string_views(out@).contains(n) <==> listed(self.model()).contains(n) by {
                assert(string_views(out@).to_multiset().count(n) == unsorted.to_multiset().count(
                    n,
                ));
                if listed(self.model()).contains(n) {
                    let j = choose|j: int|
                        0 <= j < string_views(self.files@).len() && string_views(self.files@)[j]
                            == n;
                    assert(self.files@[j]@ == n);
                }
                if unsorted.contains(n) {
                    let j = choose|j: int|
                        0 <= j < self.files@.len() && #[trigger] self.files@[j]@ == n
                            && ends_with_suffix(n);
                    assert(string_views(self.files@)[j] == n);
                }
            }
        }
        out
    }

    /// Make `name` the active wallet; it must name a wallet file that exists.
    pub fn switch(&self, name: &str) -> (r: Result<Step<String>, WalletFault<String>>)
        ensures
            outcome_view(r) == switch_outcome(self.model(), name@),
    {
        if !is_valid_wallet_name(name) {
            return Err(WalletFault::InvalidName(String::from_str(name)));
        }
        if !self.contains(name) {
            return Err(WalletFault::NotFound(String::from_str(name)));
        }
        Ok(Step::WritePointer(String::from_str(name)))
    }

    /// Rename a wallet file to a name not yet taken; the pointer follows an active one.
    pub fn rename(&self, old_name: &str, new_name: &str) -> (r: Result<
        Step<String>,
        WalletFault<String>,
    >)
        ensures
            outcome_view(r) == rename_outcome(self.model(), old_name@, new_name@),
    {
        if !is_valid_wallet_name(old_name) {
            return Err(WalletFault::InvalidName(String::from_str(old_name)));
        }
        if !is_valid_wallet_name(new_name) {
            return Err(WalletFault::InvalidName(String::from_str(new_name)));
        }
        if !self.contains(old_name) {
            return Err(WalletFault::NotFound(String::from_str(old_name)));
        }
        if self.contains(new_name) {
            return Err(WalletFault::AlreadyExists(String::from_str(new_name)));
        }
        let active = self.active_name();
        let repoint = same_text(active.as_str(), old_name);
        Ok(
            Step::Rename {
                from: String::from_str(old_name),
                to: String::from_str(new_name),
                repoint,
            },
        )
    }

    /// Remove a wallet file other than the active one.
    pub fn delete(&self, name: &str) -> (r: Result<Step<String>, WalletFault<String>>)
        ensures
            outcome_view(r) == delete_outcome(self.model(), name@),
    {
        if !is_valid_wallet_name(name) {
            return Err(WalletFault::InvalidName(String::from_str(name)));
        }
        let active = self.active_name();
        if same_text(active.as_str(), name) {
            return Err(WalletFault::CannotDeleteActive(String::from_str(name)));
        }
        if !self.contains(name) {
            return Err(WalletFault::NotFound(String::from_str(name)));
        }
        Ok(Step::Remove(String::from_str(name)))
    }

    /// Take in a picked file, given its file name, under a name not yet taken.
    pub fn import(&self, file_name: &str) -> (r: Result<Step<String>, WalletFault<String>>)
        ensures
            outcome_view(r) == import_outcome(self.model(), file_name@),
    {
        let dest = import_name(file_name);
        if !is_valid_wallet_name(dest.as_str()) {
            return Err(WalletFault::InvalidName(dest));
        }
        if self.contains(dest.as_str()) {
            return Err(WalletFault::AlreadyExists(dest));
        }
        Ok(Step::Import(dest))
    }

    fn without(&mut self, name: &str)
        ensures
            final(self).model() == (DirModel {
                files: old(self).model().files.remove(name@),
                pointer: old(self).model().pointer,
            }),
    {
        let mut kept: Vec<String> = Vec::new();
        let mut i: usize = 0;
        while i < self.files.len()
            invariant
                0 <= i <= self.files@.len(),
                forall|n: Seq<char>|
                    string_views(kept@).contains(n) <==> (n != name@ && exists|j: int|
                        0 <= j < i && #[trigger] self.files@[j]@ == n),
            decreases self.files@.len() - i,
        {
            let ghost before = string_views(kept@);
            let keep = !same_text(self.files[i].as_str(), name);
            if keep {
                kept.push(self.files[i].clone());
                proof {
                    assert(string_views(kept@) =~= before.push(self.files@[i as int]@));
                }
            }
            proof {
                assert forall|n: Seq<char>|
                    string_views(kept@).contains(n) <==> (n != name@ && exists|j: int|
                        0 <= j < i + 1 && #[trigger] self.files@[j]@ == n) by {
                    if string_views(kept@).contains(n) {
                        if before.contains(n) {
                            let j = choose|j: int| 0 <= j < i && #[trigger] self.files@[j]@ == n;
                            assert(0 <= j < i + 1);
                        } else {
                            let k = choose|k: int|
                                0 <= k < string_views(kept@).len() && string_views(kept@)[k]
                                    == n;
                            assert(keep);
                            assert(k == before.len());
                            assert(self.files@[i as int]@ == n);
                        }
                    }
                    if n != name@ && exists|j: int|
                        0 <= j < i + 1 && #[trigger] self.files@[j]@ == n {
                        let j = choose|j: int| 0 <= j < i + 1 && #[trigger] self.files@[j]@ == n;
                        if j < i {
                            assert(before.contains(n));
                            let k = choose|k: int| 0 <= k < before.len() && before[k] == n;
                            if keep {
                                assert(string_views(kept@)[k] == n);
                            }
                        } else {
                            assert(keep);
                            assert(string_views(kept@)[before.len() as int] == n);
                        }
                    }
                }
            }
            i = i + 1;
        }
        proof {
            let old_set = string_views(self.files@).to_set();
            assert(string_views(kept@).to_set() =~= old_set.remove(name@)) by {
                assert forall|n: Seq<char>|
                    string_views(kept@).to_set().contains(n) <==> old_set.remove(name@).contains(
                        n,
                    ) by {
                    if old_set.contains(n) {
                        let j = choose|j: int|
                            0 <= j < string_views(self.files@).len() && string_views(
                                self.files@,
                            )[j] == n;
                        assert(self.files@[j]@ == n);
                    }
                    if exists|j: int| 0 <= j < self.files@.len() && #[trigger] self.files@[j]@ == n {
                        let j = choose|j: int|
                            0 <= j < self.files@.len() && #[trigger] self.files@[j]@ == n;
                        assert(string_views(self.files@)[j] == n);
                    }
                }
            }
        }
        self.files = kept;
    }

    fn with(&mut self, name: String)
        ensures
            final(self).model() == (DirModel {
                files: old(self).model().files.insert(name@),
                pointer: old(self).model().pointer,
            }),
    {
        let ghost before = string_views(self.files@);
        if !self.contains(name.as_str()) {
            self.files.push(name);
            proof {
                assert(string_views(self.files@) =~= before.push(name@));
            }
        }
        proof {
            assert(string_views(self.files@).to_set() =~= before.to_set().insert(name@)) by {
                assert forall|n: Seq<char>|
                    string_views(self.files@).to_set().contains(n) <==> before.to_set().insert(
                        name@,
                    ).contains(n) by {
                    if before.contains(n) {
                        let k = choose|k: int| 0 <= k < before.len() && before[k] == n;
                        assert(string_views(self.files@)[k] == n);
                    }
                    if string_views(self.files@).contains(n) && n != name@ {
                        let k = choose|k: int|
                            0 <= k < string_views(self.files@).len() && string_views(
                                self.files@,
                            )[k] == n;
                        assert(k < before.len());
                        assert(before[k] == n);
                    }
                    if n == name@ && !before.contains(n) {
                        assert(string_views(self.files@)[before.len() as int] == n);
                    }
                }
            }
        }
    }

    /// Carry out a step on the snapshot, as it is carried out on disk.
    pub fn apply(&mut self, step: Step<String>)
        ensures
            final(self).model() == apply_step(old(self).model(), step_view(step)),
    {
        match step {
            Step::WritePointer(n) => {
                self.pointer = Some(n);
            },
            Step::Rename { from, to, repoint } => {
                self.without(from.as_str());
                self.with(to.clone());
                if repoint {
                    self.pointer = Some(to);
                }
            },
            Step::Remove(n) => {
                self.without(n.as_str());
            },
            Step::Import(n) => {
                self.with(n);
            },
        }
    }
}

/// A name holding a slash, a backslash or two dots in a row is refused by every
/// operation that changes the directory, which then asks for no step on disk.
pub proof fn lemma_unsafe_names_refused(d: DirModel, name: Seq<char>, other: Seq<char>)
    requires
        has_char(name, '/') || has_char(name, '\\') || has_parent_token(name),
    ensures
        switch_outcome(d, name) == Outcome::Err(WalletFault::InvalidName(name)),
        delete_outcome(d, name) == Outcome::Err(WalletFault::InvalidName(name)),
        rename_outcome(d, name, other) is Err && rename_outcome(d, name, other)->Err_0
            is InvalidName,
        rename_outcome(d, other, name) is Err && rename_outcome(d, other, name)->Err_0
            is InvalidName,
        import_outcome(d, name) is Err && import_outcome(d, name)->Err_0 is InvalidName,
{
    let dest = import_name_of(name);
    if !ends_with_suffix(name) {
        if has_char(name, '/') {
            let i = choose|i: int| 0 <= i < name.len() && name[i] == '/';
            assert(dest[i] == '/');
        } else if has_char(name, '\\') {
            let i = choose|i: int| 0 <= i < name.len() && name[i] == '\\';
            assert(dest[i] == '\\');
        } else {
            let i = choose|i: int| 0 <= i < name.len() - 1 && #[trigger] name[i] == '.' && name[i
                + 1] == '.';
            assert(dest[i] == '.' && dest[i + 1] == '.');
        }
    }
}

/// After a rename, the old name is gone from the listing and the new one is there; where
/// the renamed wallet was active, the new name is active afterwards. The new name must not
/// begin with white space, which the pointer's reading would strip.
pub proof fn lemma_rename_moves_name(d: DirModel, old_name: Seq<char>, new_name: Seq<char>)
    requires
        rename_outcome(d, old_name, new_name) is Ok,
        new_name.len() > 0 ==> !white_space(new_name[0]),
    ensures
        !listed(apply_step(d, rename_outcome(d, old_name, new_name)->Ok_0)).contains(old_name),
        listed(apply_step(d, rename_outcome(d, old_name, new_name)->Ok_0)).contains(new_name),
        active_of(d) == old_name ==> active_of(
            apply_step(d, rename_outcome(d, old_name, new_name)->Ok_0),
        ) == new_name,
        active_of(d) != old_name ==> active_of(
            apply_step(d, rename_outcome(d, old_name, new_name)->Ok_0),
        ) == active_of(d),
{
    lemma_valid_name_end(new_name);
    lemma_trim_stable(new_name);
    assert(old_name != new_name);
}

/// The active wallet cannot be deleted, and the refusal leaves the directory as it was.
pub proof fn lemma_active_not_deleted(d: DirModel)
    requires
        valid_wallet_name(active_of(d)),
    ensures
        delete_outcome(d, active_of(d)) == Outcome::Err(
            WalletFault::CannotDeleteActive(active_of(d)),
        ),
{
}

/// Switching to a wallet file that does not exist is refused as not found, and the
/// active wallet stays as it was.
pub proof fn lemma_switch_to_missing(d: DirModel, name: Seq<char>)
    requires
        valid_wallet_name(name),
        !d.files.contains(name),
    ensures
        switch_outcome(d, name) == Outcome::Err(WalletFault::NotFound(name)),
{
}

} // verus!
