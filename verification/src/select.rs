//! Choosing a pipeline, and the parts of its path that are needed later.

use vstd::prelude::*;
use crate::locate::{katoa_dir_of, pipeline_file};
use crate::paths::{
    FilePath, PartView, PathView, child, extension, file_extension, file_stem, joined, last_dot,
    law_child_of_directory, law_name_is_taken_apart, law_stem_and_extension, lemma_last_dot, name_of, parent_of, plain_name, stem,
};
use crate::text::{lemma_texts_push, same_text, texts};

verus! {

/// The paths of a list.
pub open spec fn paths_view(paths: Seq<FilePath>) -> Seq<PathView> {
    paths.map_values(|p: FilePath| p@)
}

/// The path is that of a pipeline: it ends in a name with the extension `ts`.
pub open spec fn is_pipeline(path: PathView) -> bool {
    name_of(path) matches Some(name) && extension(name) == Some("ts"@)
}

/// The names of the pipelines among the entries of a directory, in the order of the entries.
pub open spec fn pipeline_names(entries: Seq<PathView>) -> Seq<Seq<char>>
    decreases entries.len(),
{
    if entries.len() == 0 {
        Seq::empty()
    } else if is_pipeline(entries.last()) {
        pipeline_names(entries.drop_last()).push(stem(name_of(entries.last())->0))
    } else {
        pipeline_names(entries.drop_last())
    }
}

/// The pipelines that can be chosen from, by the entries of the `.katoa` directory.
pub fn list_pipelines(entries: &Vec<FilePath>) -> (found: Result<Vec<String>, String>)
    ensures
        if pipeline_names(paths_view(entries@)).len() == 0 {
            found matches Err(s) && s@ == "No pipelines found"@
        } else {
            found matches Ok(names) && texts(names@) == pipeline_names(paths_view(entries@))
        },
{
    let ghost all = paths_view(entries@);
    let mut names: Vec<String> = Vec::new();
    let mut i: usize = 0;
    assert(texts(names@) =~= pipeline_names(all.take(0)));
    while i < entries.len()
        invariant
            i <= entries@.len(),
            all == paths_view(entries@),
            texts(names@) == pipeline_names(all.take(i as int)),
        decreases entries@.len() - i,
    {
        proof {
            assert(all.take(i + 1).drop_last() =~= all.take(i as int));
            assert(all.take(i + 1).last() == entries@[i as int]@);
        }
        if let Some(name) = entries[i].file_name() {
            if let Some(ext) = file_extension(name.as_str()) {
                if same_text(ext.as_str(), "ts") {
                    let s = file_stem(name.as_str());
                    proof {
                        lemma_texts_push(names@, s);
                    }
                    names.push(s);
                }
            }
        }
        i += 1;
    }
    assert(all.take(entries@.len() as int) =~= all);
    assert(texts(names@).len() == names@.len());
    if names.len() == 0 {
        Err("No pipelines found".to_owned())
    } else {
        Ok(names)
    }
}

/// What the user chose.
pub enum Choice {
    /// The question could not be put.
    Unasked,
    /// Nothing.
    Nothing,
    /// The pipeline at this place.
    At(usize),
}

/// The pipeline that the user chose.
pub fn chosen_pipeline(names: &Vec<String>, choice: &Choice) -> (name: Result<String, String>)
    requires
        choice matches Choice::At(i) ==> i < names@.len(),
    ensures
        match *choice {
            Choice::Unasked => name matches Err(s) && s@ == "Could not select pipeline"@,
            Choice::Nothing => name matches Err(s) && s@ == "No pipeline selected"@,
            Choice::At(i) => name matches Ok(s) && s@ == names@[i as int]@,
        },
{
    match choice {
        Choice::Unasked => Err("Could not select pipeline".to_owned()),
        Choice::Nothing => Err("No pipeline selected".to_owned()),
        Choice::At(i) => Ok(names[*i].clone()),
    }
}

/// The name of a pipeline's file.
pub fn pipeline_name(path: &FilePath) -> (name: String)
    requires
        name_of(path@) is Some,
    ensures
        name@ == name_of(path@)->0,
{
    match path.file_name() {
        Some(name) => name,
        None => String::new(),
    }
}

/// The directory of the project that a pipeline belongs to, which is the one above its `.katoa`.
pub open spec fn project_of(path: PathView) -> Option<PathView> {
    match parent_of(path) {
        Some(dir) => parent_of(dir),
        None => None,
    }
}

/// The directory of the project that a pipeline belongs to.
pub fn project_directory(path: &FilePath) -> (dir: FilePath)
    requires
        project_of(path@) is Some,
    ensures
        Some(dir@) == project_of(path@),
{
    match path.parent() {
        Some(dir) => {
            match dir.parent() {
                Some(project) => project,
                None => dir,
            }
        },
        None => path.copy(),
    }
}

/// The names that are listed are those of the entries that are pipelines, each with the extension
/// `ts` taken away.
pub proof fn law_listed_names(entries: Seq<PathView>, name: Seq<char>)
    ensures
        pipeline_names(entries).contains(name) <==> exists|i: int|
            0 <= i < entries.len() && is_pipeline(#[trigger] entries[i]) && stem(
                name_of(entries[i])->0,
            ) == name,
    decreases entries.len(),
{
    if entries.len() > 0 {
        let less = entries.drop_last();
        let names = pipeline_names(entries);
        let rest = pipeline_names(less);
        law_listed_names(less, name);
        if names.contains(name) {
            let k = choose|k: int| 0 <= k < names.len() && names[k] == name;
            if k < rest.len() {
                assert(rest[k] == name);
                let i = choose|i: int|
                    0 <= i < less.len() && is_pipeline(#[trigger] less[i]) && stem(
                        name_of(less[i])->0,
                    ) == name;
                assert(entries[i] == less[i]);
            } else {
                assert(is_pipeline(entries[entries.len() - 1]));
            }
        }
        if exists|i: int|
            0 <= i < entries.len() && is_pipeline(#[trigger] entries[i]) && stem(
                name_of(entries[i])->0,
            ) == name {
            let i = choose|i: int|
                0 <= i < entries.len() && is_pipeline(#[trigger] entries[i]) && stem(
                    name_of(entries[i])->0,
                ) == name;
            if i < less.len() {
                assert(less[i] == entries[i]);
                let k = choose|k: int| 0 <= k < rest.len() && rest[k] == name;
                assert(names[k] == name);
            } else {
                assert(names[names.len() - 1] == name);
            }
        }
    }
}

/// A listed pipeline whose name has no extension of its own is found again under its name: the file
/// that the name stands for in the `.katoa` directory of the project `root` is the one that was
/// listed, and it belongs to that project.
pub proof fn law_listed_pipeline_is_found(root: PathView, file: Seq<char>)
    requires
        extension(file) == Some("ts"@),
        extension(stem(file)) is None,
        plain_name(stem(file)),
    ensures
        pipeline_file(katoa_dir_of(root), seq![PartView::Name(stem(file))]) == child(
            katoa_dir_of(root),
            file,
        ),
        project_of(child(katoa_dir_of(root), file)) == Some(root),
{
    let dir = katoa_dir_of(root);
    let name = stem(file);
    lemma_last_dot(file);
    law_child_of_directory(dir, name);
    law_child_of_directory(dir, file);
    law_child_of_directory(root, ".katoa"@);
    reveal_strlit(".");
    reveal_strlit("ts");
    assert(name + "."@ + "ts"@ =~= file) by {
        let d = last_dot(file);
        assert(file.take(d) + seq!['.'] + file.skip(d + 1) =~= file);
        assert("."@ =~= seq!['.']);
    }
    assert(joined(dir, seq![PartView::Name(name)]) == child(dir, name));
    assert(child(dir, name).drop_last() =~= dir);
}

/// The names of the pipelines among two lists of entries put together are those among the first and
/// then those among the second.
pub proof fn law_names_of_more_entries(first: Seq<PathView>, second: Seq<PathView>)
    ensures
        pipeline_names(first + second) == pipeline_names(first) + pipeline_names(second),
        pipeline_names(Seq::empty()) == Seq::<Seq<char>>::empty(),
    decreases second.len(),
{
    if second.len() == 0 {
        assert(first + second =~= first);
        assert(pipeline_names(first) + pipeline_names(second) =~= pipeline_names(first));
    } else {
        let less = second.drop_last();
        law_names_of_more_entries(first, less);
        assert((first + second).drop_last() =~= first + less);
        assert((first + second).last() == second.last());
        assert(pipeline_names(first + second) =~= pipeline_names(first) + pipeline_names(second));
    }
}

/// An entry is a pipeline exactly if its name is some other name, which is not empty, with `.ts` behind
/// it; that other name is the pipeline's.
pub proof fn law_name_of_entry(dir: PathView, name: Seq<char>, path: PathView)
    ensures
        name.len() > 0 ==> pipeline_names(seq![child(dir, name + ".ts"@)]) == seq![name],
        name.len() <= 3 || name.skip(name.len() - 3) != ".ts"@ ==> pipeline_names(
            seq![child(dir, name)],
        ) == Seq::<Seq<char>>::empty(),
        path.len() == 0 || !(path.last() is Name) ==> pipeline_names(seq![path]) == Seq::<
            Seq<char>,
        >::empty(),
{
    reveal_with_fuel(pipeline_names, 2);
    reveal_strlit(".ts");
    reveal_strlit("ts");
    let file = child(dir, name + ".ts"@);
    assert(seq![file].drop_last() =~= Seq::empty());
    assert(seq![child(dir, name)].drop_last() =~= Seq::empty());
    assert(seq![path].drop_last() =~= Seq::empty());
    if name.len() > 0 {
        assert(!"ts"@.contains('.'));
        law_name_is_taken_apart(name, "ts"@);
        assert(name + ".ts"@ =~= name + seq!['.'] + "ts"@);
        assert(pipeline_names(seq![file]) =~= seq![name]);
    }
    if extension(name) == Some("ts"@) {
        law_stem_and_extension(name);
        assert(name.skip(name.len() - 3) =~= ".ts"@);
    }
}

/// A pipeline belongs to the directory two levels above it.
pub proof fn law_project_is_two_levels_up(root: PathView, dir: Seq<char>, file: Seq<char>)
    ensures
        project_of(child(child(root, dir), file)) == Some(root),
{
    law_child_of_directory(root, dir);
    law_child_of_directory(child(root, dir), file);
}

/// The paths of a list are seen as they are, in order.
pub proof fn law_paths_are_seen(paths: Seq<FilePath>)
    ensures
        paths_view(paths).len() == paths.len(),
        forall|i: int| 0 <= i < paths.len() ==> #[trigger] paths_view(paths)[i] == paths[i]@,
{
}

} // verus!
