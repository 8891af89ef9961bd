//! What a change of files asks of a dossier being watched: whether it must
//! be compiled again, and what must be loaded again first.
//!
//! Watching the file system and running the compilation are left to the
//! caller, which hands over the paths of the files that changed.
use vstd::prelude::*;

use crate::compiler::{all_plain, file_name_found, file_name_of, is_one_of};
use crate::configuration::{join_path, path_join, strings_of};
use crate::text::{contains_exec, contains_seq, starts_with, starts_with_exec, string_from_range, to_chars};

verus! {

/// The file of a dossier's configuration, in YAML.
pub const DOSSIER_CONFIGURATION_YAML_FILE_NAME: &'static str = "nmd.yml";

/// The file of a dossier's configuration, in JSON.
pub const DOSSIER_CONFIGURATION_JSON_FILE_NAME: &'static str = "nmd.json";

/// The directory of a dossier's assets, relative to the dossier.
pub const ASSETS_PATH: &'static str = "assets/";

/// Whether a change touches the dossier's configuration file (YAML or JSON)
/// in the dossier's directory.
pub open spec fn touches_configuration(changed: Seq<Seq<char>>, input_location: Seq<char>) -> bool {
    changed.contains(path_join(input_location, DOSSIER_CONFIGURATION_YAML_FILE_NAME@))
        || changed.contains(path_join(input_location, DOSSIER_CONFIGURATION_JSON_FILE_NAME@))
}

/// Whether the changed files include the dossier's configuration file: then
/// the dossier must be loaded and compiled again.
pub fn configuration_changed(changed: &Vec<String>, input_location: &str) -> (r: bool)
    ensures
        r == touches_configuration(strings_of(changed@), input_location@),
{
    let yaml = join_path(input_location, DOSSIER_CONFIGURATION_YAML_FILE_NAME);
    let json = join_path(input_location, DOSSIER_CONFIGURATION_JSON_FILE_NAME);
    is_one_of(&yaml, changed) || is_one_of(&json, changed)
}

/// A path relative to a directory (as `Path::strip_prefix` gives it, with
/// `/` separators): empty for the directory itself, the rest after the
/// directory and a separator for a path inside it, `None` otherwise.
pub open spec fn relative_to(path: Seq<char>, base: Seq<char>) -> Option<Seq<char>> {
    if path == base {
        Some(Seq::empty())
    } else if base.len() > 0 && base.last() == '/' && starts_with(path, base) {
        Some(path.skip(base.len() as int))
    } else if starts_with(path, base + "/"@) {
        Some(path.skip(base.len() as int + 1))
    } else {
        None
    }
}

/// The path relative to a directory, if it lies in it.
fn relative_path(path: &str, base: &str) -> (r: Option<String>)
    ensures
        match relative_to(path@, base@) {
            Some(rel) => r matches Some(s) && s@ == rel,
            None => r is None,
        },
{
    let pv = to_chars(path);
    let bv = to_chars(base);
    let mut with_separator = bv.clone();
    with_separator.push('/');
    proof {
        reveal_strlit("/");
        assert(with_separator@ =~= bv@ + "/"@);
    }
    if pv.len() == bv.len() && starts_with_exec(&pv, &bv) {
        proof {
            assert(pv@ =~= pv@.take(bv@.len() as int));
        }
        return Some(String::new());
    }
    if bv.len() > 0 && bv[bv.len() - 1] == '/' && starts_with_exec(&pv, &bv) {
        proof {
            assert(bv@.last() == bv@[bv@.len() - 1]);
            assert(pv@.subrange(bv@.len() as int, pv@.len() as int) =~= pv@.skip(bv@.len() as int));
        }
        return Some(string_from_range(&pv, bv.len(), pv.len()));
    }
    if starts_with_exec(&pv, &with_separator) {
        proof {
            assert(pv@.subrange(with_separator@.len() as int, pv@.len() as int) =~= pv@.skip(
                bv@.len() as int + 1,
            ));
        }
        return Some(string_from_range(&pv, with_separator.len(), pv.len()));
    }
    proof {
        if bv@.len() > 0 && bv@.last() == '/' {
            assert(bv@.last() == bv@[bv@.len() - 1]);
        }
        if pv@ == bv@ {
            assert(pv@.take(bv@.len() as int) =~= pv@);
        }
    }
    None
}

/// The paths watched in a dossier: its documents' paths and its assets.
pub open spec fn watched_paths(raw_documents_paths: Seq<Seq<char>>) -> Seq<Seq<char>> {
    raw_documents_paths.push(ASSETS_PATH@)
}

/// Whether a change touches what is watched: a changed file inside the
/// dossier's directory whose relative path occurs in one of the watched
/// paths.
pub open spec fn touches_watched(
    changed: Seq<Seq<char>>,
    input_location: Seq<char>,
    raw_documents_paths: Seq<Seq<char>>,
) -> bool {
    exists|i: int, j: int|
        0 <= i < changed.len() && 0 <= j < watched_paths(raw_documents_paths).len() && (
        #[trigger] relative_to(changed[i], input_location) matches Some(rel) && contains_seq(
            #[trigger] watched_paths(raw_documents_paths)[j],
            rel,
        ))
}

/// Whether the changed files touch the dossier's documents or assets: then
/// the dossier must be compiled again.
pub fn watched_files_changed(
    changed: &Vec<String>,
    input_location: &str,
    raw_documents_paths: &Vec<String>,
) -> (r: bool)
    ensures
        r == touches_watched(strings_of(changed@), input_location@, strings_of(raw_documents_paths@)),
{
    let ghost cv = strings_of(changed@);
    let ghost wv = watched_paths(strings_of(raw_documents_paths@));
    let mut watched: Vec<String> = Vec::new();
    let mut k: usize = 0;
    while k < raw_documents_paths.len()
        invariant
            k <= raw_documents_paths@.len(),
            strings_of(watched@) == strings_of(raw_documents_paths@).take(k as int),
        decreases raw_documents_paths@.len() - k,
    {
        let ghost before = strings_of(watched@);
        let p = raw_documents_paths[k].clone();
        watched.push(p);
        proof {
            assert(strings_of(watched@) =~= before.push(p@));
            assert(strings_of(raw_documents_paths@).take(k + 1) =~= strings_of(
                raw_documents_paths@,
            ).take(k as int).push(raw_documents_paths@[k as int]@));
        }
        k = k + 1;
    }
    watched.push(String::from_str(ASSETS_PATH));
    proof {
        assert(strings_of(raw_documents_paths@).take(k as int) =~= strings_of(raw_documents_paths@));
        assert(strings_of(watched@) =~= wv);
    }
    let mut i: usize = 0;
    while i < changed.len()
        invariant
            i <= changed@.len() == cv.len(),
            cv == strings_of(changed@),
            wv == watched_paths(strings_of(raw_documents_paths@)),
            strings_of(watched@) == wv,
            forall|a: int, b: int|
                0 <= a < i && 0 <= b < wv.len() ==> !(#[trigger] relative_to(cv[a], input_location@) matches Some(
                    rel,
                ) && contains_seq(#[trigger] wv[b], rel)),
        decreases changed@.len() - i,
    {
        proof {
            assert(cv[i as int] == changed@[i as int]@);
        }
        match relative_path(changed[i].as_str(), input_location) {
            Some(rel) => {
                let relv = to_chars(rel.as_str());
                let mut j: usize = 0;
                while j < watched.len()
                    invariant
                        i < cv.len(),
                        cv == strings_of(changed@),
                        wv == watched_paths(strings_of(raw_documents_paths@)),
                        j <= watched@.len() == wv.len(),
                        strings_of(watched@) == wv,
                        relv@ == rel@,
                        relative_to(cv[i as int], input_location@) == Some(rel@),
                        forall|b: int| 0 <= b < j ==> !contains_seq(#[trigger] wv[b], rel@),
                    decreases watched@.len() - j,
                {
                    let wvj = to_chars(watched[j].as_str());
                    proof {
                        assert(wv[j as int] == watched@[j as int]@);
                    }
                    if contains_exec(&wvj, &relv) {
                        proof {
                            assert(relative_to(cv[i as int], input_location@) matches Some(r) && contains_seq(
                                wv[j as int],
                                r,
                            ));
                        }
                        return true;
                    }
                    j = j + 1;
                }
            },
            None => {},
        }
        i = i + 1;
    }
    false
}

/// What a change of files asks to load again: `None` when the
/// configuration (`nmd.yml`) changed, the whole dossier; otherwise the
/// changed files whose name is the name of one of the documents' files.
/// (`changed_names` are the file names of the changed paths, `document_names`
/// those of the documents' paths; `None` for a path without one.)
pub open spec fn to_reload(
    changed: Seq<Seq<char>>,
    changed_names: Seq<Option<Seq<char>>>,
    document_names: Seq<Option<Seq<char>>>,
) -> Option<Seq<Seq<char>>>
    decreases changed.len(),
{
    if exists|i: int|
        0 <= i < changed_names.len() && #[trigger] changed_names[i] == Some(
            DOSSIER_CONFIGURATION_YAML_FILE_NAME@,
        ) {
        None
    } else {
        Some(reloaded(changed, changed_names, document_names))
    }
}

/// The changed files whose name is the name of one of the documents' files,
/// in order.
pub open spec fn reloaded(
    changed: Seq<Seq<char>>,
    changed_names: Seq<Option<Seq<char>>>,
    document_names: Seq<Option<Seq<char>>>,
) -> Seq<Seq<char>>
    decreases changed.len(),
{
    if changed.len() == 0 || changed_names.len() == 0 {
        Seq::empty()
    } else {
        let rest = reloaded(changed.drop_last(), changed_names.drop_last(), document_names);
        match changed_names.last() {
            Some(n) => if document_names.contains(Some(n)) {
                rest.push(changed.last())
            } else {
                rest
            },
            None => rest,
        }
    }
}

pub open spec fn opt_strings(v: Seq<Option<String>>) -> Seq<Option<Seq<char>>> {
    v.map_values(
        |o: Option<String>|
            match o {
                Some(s) => Some(s@),
                None => None,
            },
    )
}

fn has_name(names: &Vec<Option<String>>, name: &String) -> (r: bool)
    ensures
        r == opt_strings(names@).contains(Some(name@)),
{
    let mut i: usize = 0;
    while i < names.len()
        invariant
            i <= names@.len(),
            forall|j: int| 0 <= j < i ==> opt_strings(names@)[j] != Some(name@),
        decreases names@.len() - i,
    {
        match &names[i] {
            Some(n) => {
                if n.eq(name) {
                    proof {
                        assert(opt_strings(names@)[i as int] == Some(name@));
                    }
                    return true;
                }
            },
            None => {},
        }
        proof {
            assert(opt_strings(names@)[i as int] != Some(name@));
        }
        i = i + 1;
    }
    proof {
        if opt_strings(names@).contains(Some(name@)) {
            let j = choose|j: int|
                0 <= j < opt_strings(names@).len() && opt_strings(names@)[j] == Some(name@);
        }
    }
    false
}

/// What a change of files asks to load again, given the file names of the
/// changed paths and of the documents' paths.
pub fn files_to_reload_named(
    changed: &Vec<String>,
    changed_names: &Vec<Option<String>>,
    document_names: &Vec<Option<String>>,
) -> (r: Option<Vec<String>>)
    requires
        changed_names@.len() == changed@.len(),
    ensures
        match to_reload(strings_of(changed@), opt_strings(changed_names@), opt_strings(document_names@)) {
            Some(ps) => r matches Some(v) && strings_of(v@) == ps,
            None => r is None,
        },
{
    let ghost cv = strings_of(changed@);
    let ghost nv = opt_strings(changed_names@);
    let ghost dv = opt_strings(document_names@);
    let yaml = String::from_str(DOSSIER_CONFIGURATION_YAML_FILE_NAME);
    let mut i: usize = 0;
    while i < changed_names.len()
        invariant
            i <= changed_names@.len(),
            nv == opt_strings(changed_names@),
            yaml@ == DOSSIER_CONFIGURATION_YAML_FILE_NAME@,
            forall|j: int| 0 <= j < i ==> nv[j] != Some(DOSSIER_CONFIGURATION_YAML_FILE_NAME@),
        decreases changed_names@.len() - i,
    {
        match &changed_names[i] {
            Some(n) => {
                if n.eq(&yaml) {
                    proof {
                        assert(nv[i as int] == Some(DOSSIER_CONFIGURATION_YAML_FILE_NAME@));
                    }
                    return None;
                }
            },
            None => {},
        }
        proof {
            assert(nv[i as int] != Some(DOSSIER_CONFIGURATION_YAML_FILE_NAME@));
        }
        i = i + 1;
    }
    let mut kept: Vec<String> = Vec::new();
    let mut k: usize = 0;
    proof {
        assert(cv.take(0) =~= Seq::<Seq<char>>::empty());
        assert(nv.take(0) =~= Seq::<Option<Seq<char>>>::empty());
    }
    while k < changed.len()
        invariant
            k <= changed@.len() == changed_names@.len(),
            cv == strings_of(changed@),
            nv == opt_strings(changed_names@),
            dv == opt_strings(document_names@),
            strings_of(kept@) == reloaded(cv.take(k as int), nv.take(k as int), dv),
        decreases changed@.len() - k,
    {
        proof {
            assert(cv.take(k + 1).drop_last() =~= cv.take(k as int));
            assert(nv.take(k + 1).drop_last() =~= nv.take(k as int));
            assert(cv.take(k + 1).last() == changed@[k as int]@);
            assert(nv.take(k + 1).last() == nv[k as int]);
        }
        match &changed_names[k] {
            Some(n) => {
                proof {
                    assert(nv[k as int] == Some(n@));
                }
                if has_name(document_names, n) {
                    let ghost before = strings_of(kept@);
                    kept.push(changed[k].clone());
                    proof {
                        assert(strings_of(kept@) =~= before.push(changed@[k as int]@));
                    }
                }
            },
            None => {},
        }
        k = k + 1;
    }
    proof {
        assert(cv.take(k as int) =~= cv);
        assert(nv.take(k as int) =~= nv);
    }
    Some(kept)
}

/// Whether `names` are the file names found for `paths` (`None` where a
/// path has none), one per path.
pub open spec fn opt_names_found(names: Seq<Option<Seq<char>>>, paths: Seq<Seq<char>>) -> bool {
    &&& names.len() == paths.len()
    &&& forall|i: int| 0 <= i < paths.len() ==> file_name_found(#[trigger] names[i], paths[i])
}

/// Each path as its own file name.
pub open spec fn own_names(paths: Seq<Seq<char>>) -> Seq<Option<Seq<char>>> {
    paths.map_values(|p: Seq<char>| Some(p))
}

/// What a change of files asks to load again: the whole dossier (`None`)
/// when a changed file is named `nmd.yml`; otherwise the changed files named
/// like one of the documents' files. File names are taken with
/// `Path::file_name`, whose separators depend on the platform: what holds of
/// the names on every platform is stated, and paths that are plain file
/// names are their own names, so with such paths the result is exact.
pub fn files_to_reload(changed: &Vec<String>, raw_documents_paths: &Vec<String>) -> (r: Option<
    Vec<String>,
>)
    ensures
        exists|changed_names: Seq<Option<Seq<char>>>, document_names: Seq<Option<Seq<char>>>|
            opt_names_found(changed_names, strings_of(changed@)) && opt_names_found(
                document_names,
                strings_of(raw_documents_paths@),
            ) && match #[trigger] to_reload(strings_of(changed@), changed_names, document_names) {
                Some(ps) => r matches Some(v) && strings_of(v@) == ps,
                None => r is None,
            },
        all_plain(strings_of(changed@)) && all_plain(strings_of(raw_documents_paths@)) ==> match to_reload(
            strings_of(changed@),
            own_names(strings_of(changed@)),
            own_names(strings_of(raw_documents_paths@)),
        ) {
            Some(ps) => r matches Some(v) && strings_of(v@) == ps,
            None => r is None,
        },
{
    let ghost cv = strings_of(changed@);
    let ghost dv = strings_of(raw_documents_paths@);
    let mut changed_names: Vec<Option<String>> = Vec::new();
    let mut i: usize = 0;
    while i < changed.len()
        invariant
            i <= changed@.len(),
            cv == strings_of(changed@),
            changed_names@.len() == i,
            forall|j: int| 0 <= j < i ==> file_name_found(#[trigger] opt_strings(changed_names@)[j], cv[j]),
        decreases changed@.len() - i,
    {
        let n = file_name_of(changed[i].as_str());
        proof {
            assert(cv[i as int] == changed@[i as int]@);
        }
        let ghost before = changed_names@;
        changed_names.push(n);
        proof {
            assert forall|j: int| 0 <= j < i + 1 implies file_name_found(
                #[trigger] opt_strings(changed_names@)[j],
                cv[j],
            ) by {
                if j < i {
                    assert(changed_names@[j] == before[j]);
                    assert(opt_strings(changed_names@)[j] == opt_strings(before)[j]);
                }
            }
        }
        i = i + 1;
    }
    let mut document_names: Vec<Option<String>> = Vec::new();
    let mut j: usize = 0;
    while j < raw_documents_paths.len()
        invariant
            j <= raw_documents_paths@.len(),
            dv == strings_of(raw_documents_paths@),
            document_names@.len() == j,
            forall|k: int| 0 <= k < j ==> file_name_found(#[trigger] opt_strings(document_names@)[k], dv[k]),
        decreases raw_documents_paths@.len() - j,
    {
        let n = file_name_of(raw_documents_paths[j].as_str());
        proof {
            assert(dv[j as int] == raw_documents_paths@[j as int]@);
        }
        let ghost before = document_names@;
        document_names.push(n);
        proof {
            assert forall|k: int| 0 <= k < j + 1 implies file_name_found(
                #[trigger] opt_strings(document_names@)[k],
                dv[k],
            ) by {
                if k < j {
                    assert(document_names@[k] == before[k]);
                    assert(opt_strings(document_names@)[k] == opt_strings(before)[k]);
                }
            }
        }
        j = j + 1;
    }
    let r = files_to_reload_named(changed, &changed_names, &document_names);
    proof {
        let cn = opt_strings(changed_names@);
        let dn = opt_strings(document_names@);
        assert(opt_names_found(cn, cv));
        assert(opt_names_found(dn, dv));
        if all_plain(cv) && all_plain(dv) {
            assert forall|k: int| 0 <= k < cv.len() implies cn[k] == own_names(cv)[k] by {
                assert(crate::compiler::plain_name(cv[k]));
                assert(file_name_found(cn[k], cv[k]));
            }
            assert(cn =~= own_names(cv));
            assert forall|k: int| 0 <= k < dv.len() implies dn[k] == own_names(dv)[k] by {
                assert(crate::compiler::plain_name(dv[k]));
                assert(file_name_found(dn[k], dv[k]));
            }
            assert(dn =~= own_names(dv));
        }
        let _ = to_reload(cv, cn, dn);
    }
    r
}

} // verus!
