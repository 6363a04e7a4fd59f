//! How a run is launched: where the program is, and how the service manager is asked.

use crate::healing::DispatchBackendKind;
use crate::paths::{
    absolute, is_absolute, join_path, joined, leads_with_dot, parent_of, parts_of, path_parent,
    path_parts,
};
use crate::text::{
    add_text, cat2, cat3, decimal_int, i64_text, opt_view, str_eq, str_split, str_strip_suffix,
    str_trim, texts, trim, views,
};
use vstd::prelude::*;
use vstd::string::*;

verus! {

/// The path that a program has whose file was replaced.
pub open spec fn undeleted(path: Seq<char>) -> Option<Seq<char>> {
    let mark = " (deleted)"@;
    if mark.is_suffix_of(path) {
        Some(path.take(path.len() - mark.len()))
    } else {
        None
    }
}

/// The path that a program has whose file was replaced.
pub fn strip_linux_deleted_suffix(path: &str) -> (r: Option<String>)
    ensures
        opt_view(r) == undeleted(path@),
{
    match str_strip_suffix(path, " (deleted)") {
        Some(p) => Some(p.to_owned()),
        None => None,
    }
}

/// The path is of one component.
pub open spec fn single(p: Seq<char>) -> bool {
    path_parts(p).len() + (if absolute(p) || leads_with_dot(p) {
        1nat
    } else {
        0nat
    }) == 1
}

/// Tells whether a path is of one component.
fn is_single(p: &str) -> (r: bool)
    ensures
        r == single(p@),
{
    let parts = parts_of(p);
    let segments = str_split(p, '/');
    proof {
        assert(views(segments@).len() == segments@.len());
        assert(views(parts@).len() == parts@.len());
        if segments@.len() > 0 {
            assert(views(segments@)[0] == segments@[0]@);
        }
    }
    let leads = segments.len() > 0 && str_eq(segments[0].as_str(), ".");
    if is_absolute(p) || leads {
        parts.len() == 0
    } else {
        parts.len() == 1
    }
}

/// Directories, each with a name below it.
pub open spec fn below_each(dirs: Seq<Seq<char>>, name: Seq<char>) -> Seq<Seq<char>> {
    dirs.map_values(|d: Seq<char>| joined(d, name))
}

/// Where the program may be, in order: where it was started from, with and without the mark of a
/// replaced file; as it was called; and, where it was called by its bare name, on the search path.
pub open spec fn exe_places(
    current_exe: Option<Seq<char>>,
    argv0: Option<Seq<char>>,
    path_dirs: Seq<Seq<char>>,
) -> Seq<Seq<char>> {
    (match current_exe {
        Some(p) => match undeleted(p) {
            Some(q) => seq![p, q],
            None => seq![p],
        },
        None => Seq::empty(),
    }) + (match argv0 {
        Some(a) => if single(a) {
            seq![a] + below_each(path_dirs, a)
        } else {
            seq![a]
        },
        None => Seq::empty(),
    })
}

/// Where the program may be, in order.
pub fn exe_candidates(
    current_exe: &Option<String>,
    argv0: &Option<String>,
    path_dirs: &Vec<String>,
) -> (r: Vec<String>)
    ensures
        views(r@) == exe_places(opt_view(*current_exe), opt_view(*argv0), views(path_dirs@)),
{
    let mut out: Vec<String> = Vec::new();
    proof {
        assert(views(out@) =~= Seq::<Seq<char>>::empty());
    }
    if let Some(p) = current_exe {
        add_text(&mut out, p.clone());
        if let Some(q) = strip_linux_deleted_suffix(p.as_str()) {
            add_text(&mut out, q);
        }
    }
    let ghost head = views(out@);
    proof {
        assert(head =~= exe_places(opt_view(*current_exe), None, views(path_dirs@)));
    }
    if let Some(a) = argv0 {
        add_text(&mut out, a.clone());
        if is_single(a.as_str()) {
            let ghost dirs = views(path_dirs@);
            let ghost base = views(out@);
            let mut i: usize = 0;
            proof {
                assert(below_each(dirs.take(0), a@) =~= Seq::<Seq<char>>::empty());
                assert(base + Seq::<Seq<char>>::empty() =~= base);
            }
            while i < path_dirs.len()
                invariant
                    i <= path_dirs@.len(),
                    dirs == views(path_dirs@),
                    views(out@) == base + below_each(dirs.take(i as int), a@),
                decreases path_dirs.len() - i,
            {
                let p = join_path(path_dirs[i].as_str(), a.as_str());
                add_text(&mut out, p);
                proof {
                    assert(below_each(dirs.take(i + 1), a@) =~= below_each(
                        dirs.take(i as int),
                        a@,
                    ).push(joined(dirs[i as int], a@)));
                    assert(views(out@) =~= base + below_each(dirs.take(i + 1), a@));
                }
                i = i + 1;
            }
            proof {
                assert(dirs.take(i as int) =~= dirs);
                assert(base =~= head + seq![a@]);
            }
        }
    }
    proof {
        assert(views(out@) =~= exe_places(
            opt_view(*current_exe),
            opt_view(*argv0),
            views(path_dirs@),
        ));
    }
    out
}

/// The first of the paths that is there.
pub open spec fn first_there(paths: Seq<Seq<char>>, there: Seq<bool>) -> Option<Seq<char>>
    decreases paths.len(),
{
    if paths.len() == 0 {
        None
    } else if there[0] {
        Some(paths[0])
    } else {
        first_there(paths.drop_first(), there.drop_first())
    }
}

/// The program: the first of its places that is there.
pub fn resolve_orchd_exe_from(candidates: &Vec<String>, there: &Vec<bool>) -> (r: Result<String, String>)
    requires
        there@.len() == candidates@.len(),
    ensures
        match first_there(views(candidates@), there@) {
            Some(p) => r matches Ok(x) && x@ == p,
            None => r matches Err(e) && e@ == "unable to resolve orchd executable path"@,
        },
{
    let ghost all = views(candidates@);
    let mut i: usize = 0;
    proof {
        assert(all.skip(0) =~= all);
        assert(there@.skip(0) =~= there@);
    }
    while i < candidates.len()
        invariant
            i <= candidates@.len(),
            there@.len() == candidates@.len(),
            all == views(candidates@),
            first_there(all, there@) == first_there(all.skip(i as int), there@.skip(i as int)),
        decreases candidates.len() - i,
    {
        proof {
            assert(all.skip(i as int)[0] == all[i as int]);
            assert(there@.skip(i as int)[0] == there@[i as int]);
            assert(all.skip(i as int).drop_first() =~= all.skip(i + 1));
            assert(there@.skip(i as int).drop_first() =~= there@.skip(i + 1));
        }
        if there[i] {
            return Ok(candidates[i].clone());
        }
        i = i + 1;
    }
    Err("unable to resolve orchd executable path".to_owned())
}

/// The unit that runs a dispatch.
pub open spec fn unit_name(dispatch_id: i64) -> Seq<char> {
    "orchd-dispatch-"@ + decimal_int(dispatch_id as int)
}

/// A run that was launched: what runs it, and how it is found again.
pub struct RunHandle {
    pub backend_kind: DispatchBackendKind,
    pub backend_ref: String,
}

/// The arguments with which the service manager runs a dispatch, and the run that results.
pub fn systemd_launch(dispatch_id: i64, orchd_bin: &str, spec_path: &str) -> (r: (
    Vec<String>,
    RunHandle,
))
    ensures
        views(r.0@) == seq![
            "--user"@,
            "--collect"@,
            "--unit"@,
            unit_name(dispatch_id),
            orchd_bin@,
            "run-dispatch"@,
            "--spec"@,
            spec_path@,
        ],
        r.1.backend_kind == DispatchBackendKind::Systemd,
        r.1.backend_ref@ == unit_name(dispatch_id) + ".service"@,
{
    let n = i64_text(dispatch_id);
    let unit = cat2("orchd-dispatch-", n.as_str());
    let a = [
        "--user",
        "--collect",
        "--unit",
        unit.as_str(),
        orchd_bin,
        "run-dispatch",
        "--spec",
        spec_path,
    ];
    let list = texts(&a);
    proof {
        assert(views(list@) =~= seq![
            "--user"@,
            "--collect"@,
            "--unit"@,
            unit_name(dispatch_id),
            orchd_bin@,
            "run-dispatch"@,
            "--spec"@,
            spec_path@,
        ]);
    }
    let backend_ref = cat2(unit.as_str(), ".service");
    (list, RunHandle { backend_kind: DispatchBackendKind::Systemd, backend_ref })
}

/// A part of what a failed program wrote, where it wrote something.
pub open spec fn output_part(name: Seq<char>, text: Seq<char>) -> Seq<char> {
    if trim(text).len() == 0 {
        Seq::empty()
    } else {
        "\n"@ + name + ":\n"@ + trim(text)
    }
}

/// A part of what a failed program wrote, where it wrote something.
fn written(name: &str, text: &str) -> (r: String)
    ensures
        r@ == output_part(name@, text@),
{
    let t = str_trim(text);
    if t.is_empty() {
        let none = String::new();
        proof {
            assert(none@ =~= Seq::<char>::empty());
        }
        return none;
    }
    let head = cat3("\n", name, ":\n");
    cat2(head.as_str(), t)
}

/// What is said where the service manager does not launch a run.
pub fn systemd_failure(status: &str, stdout: &str, stderr: &str) -> (r: String)
    ensures
        r@ == "systemd-run exited with status "@ + status@ + output_part("stderr"@, stderr@)
            + output_part("stdout"@, stdout@),
{
    let mut m = cat2("systemd-run exited with status ", status);
    let e = written("stderr", stderr);
    let o = written("stdout", stdout);
    m.append(e.as_str());
    m.append(o.as_str());
    m
}

/// The log of a run without the service manager: beside what the runner needs to know.
pub fn local_backend_log(spec_path: &str) -> (r: String)
    ensures
        r@ == (match parent_of(spec_path@) {
            Some(dir) => joined(dir, "local-backend.log"@),
            None => "local-backend.log"@,
        }),
{
    match path_parent(spec_path) {
        Some(dir) => join_path(dir.as_str(), "local-backend.log"),
        None => "local-backend.log".to_owned(),
    }
}

/// The mark of a replaced file comes off the path of a program, and nothing else does.
pub proof fn law_marks_of_replaced_files_come_off(path: Seq<char>)
    ensures
        undeleted(path + " (deleted)"@) == Some(path),
        undeleted(path) matches Some(p) ==> path == p + " (deleted)"@,
        undeleted(path) is None <==> !" (deleted)"@.is_suffix_of(path),
{
    let mark = " (deleted)"@;
    let t = path + mark;
    assert(t.subrange(t.len() - mark.len(), t.len() as int) =~= mark);
    assert(t.take(t.len() - mark.len()) =~= path);
    if mark.is_suffix_of(path) {
        assert(path =~= path.take(path.len() - mark.len()) + mark);
    }
}

/// The program is looked for where it was started from, then as it was called, and on the search path only
/// where it was called by its bare name.
pub proof fn law_programs_are_looked_for_in_order(exe: Seq<char>, called: Seq<char>, dirs: Seq<Seq<char>>)
    ensures
        exe_places(None, None, dirs).len() == 0,
        exe_places(Some(exe), None, dirs)[0] == exe,
        !" (deleted)"@.is_suffix_of(exe) ==> exe_places(Some(exe), None, dirs) == seq![exe],
        exe_places(Some(exe + " (deleted)"@), None, dirs) == seq![exe + " (deleted)"@, exe],
        !single(called) ==> exe_places(None, Some(called), dirs) == seq![called],
        single(called) ==> {
            let p = exe_places(None, Some(called), dirs);
            &&& p.len() == dirs.len() + 1
            &&& p[0] == called
            &&& forall|i: int| 0 <= i < dirs.len() ==> #[trigger] p[i + 1] == joined(dirs[i], called)
        },
        exe_places(Some(exe), Some(called), dirs) == exe_places(Some(exe), None, dirs) + exe_places(
            None,
            Some(called),
            dirs,
        ),
{
    law_marks_of_replaced_files_come_off(exe);
    assert(exe_places(Some(exe), Some(called), dirs) =~= exe_places(Some(exe), None, dirs)
        + exe_places(None, Some(called), dirs));
}

/// The program that is taken is the first that is there.
pub proof fn law_the_first_program_there_is_taken(paths: Seq<Seq<char>>, there: Seq<bool>, k: int)
    requires
        there.len() == paths.len(),
        0 <= k <= paths.len(),
        k < paths.len() ==> there[k],
        forall|i: int| 0 <= i < k ==> !#[trigger] there[i],
    ensures
        k < paths.len() ==> first_there(paths, there) == Some(paths[k]),
        k == paths.len() ==> first_there(paths, there) is None,
    decreases paths.len(),
{
    if paths.len() > 0 && k > 0 {
        assert(!there[0]);
        let t = there.drop_first();
        assert forall|i: int| 0 <= i < k - 1 implies !#[trigger] t[i] by {
            assert(t[i] == there[i + 1]);
        }
        law_the_first_program_there_is_taken(paths.drop_first(), t, k - 1);
    }
}

/// The unit of a dispatch is named after it, and no two dispatches have one.
pub proof fn law_units_are_named_after_their_dispatch(a: i64, b: i64)
    ensures
        unit_name(a) == "orchd-dispatch-"@ + decimal_int(a as int),
        unit_name(a) == unit_name(b) ==> a == b,
{
    let h = "orchd-dispatch-"@;
    if unit_name(a) == unit_name(b) {
        assert(unit_name(a).skip(h.len() as int) =~= decimal_int(a as int));
        assert(unit_name(b).skip(h.len() as int) =~= decimal_int(b as int));
        crate::text::law_decimal_is_one_to_one(a as int, b as int);
    }
}

/// What a failed program wrote is told under its name, and nothing where it wrote nothing.
pub proof fn law_output_is_told_where_there_is_some(name: Seq<char>, text: Seq<char>)
    ensures
        trim(text).len() == 0 ==> output_part(name, text).len() == 0,
        trim(text).len() > 0 ==> output_part(name, text) == "\n"@ + name + ":\n"@ + trim(text),
{
}

/// A path is of one component where it is a bare name, and not where a directory is in front of it.
pub proof fn law_bare_names_are_single(name: Seq<char>, dir: Seq<char>)
    requires
        name.len() > 0,
        forall|i: int| 0 <= i < name.len() ==> #[trigger] name[i] != '/',
        name != "."@,
        dir.len() > 0,
        forall|i: int| 0 <= i < dir.len() ==> #[trigger] dir[i] != '/',
        dir != "."@,
    ensures
        single(name),
        !single(dir + seq!['/'] + name),
{
    crate::paths::law_components_are_between_slashes(name, name);
    crate::paths::law_components_are_between_slashes(dir, name);
    crate::text::law_parts_are_between_separators(name, name, '/');
    assert(crate::text::split(name, '/') == seq![name]);
    assert(crate::text::split(name, '/')[0] == name);
    assert(name[0] != '/');
}

} // verus!
