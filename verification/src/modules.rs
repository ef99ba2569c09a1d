//! The plugin-module model: which file names are module candidates, which
//! entry points a loaded module resolved, and the fixed order in which the
//! host invokes the lifecycle hooks. Opening dynamic libraries and calling
//! through their symbols happens outside; the decisions live here.
use vstd::prelude::*;

use crate::text::{str_eq, str_matches_at};

verus! {

/// The native dynamic-library extension of a platform, or nothing on an
/// unsupported one (a fatal startup condition for the host).
pub open spec fn spec_library_extension(os: Seq<char>) -> Option<Seq<char>> {
    if os == "linux"@ {
        Some(".so"@)
    } else if os == "windows"@ {
        Some(".dll"@)
    } else if os == "macos"@ {
        Some(".dylib"@)
    } else {
        None
    }
}

pub fn library_extension(os: &str) -> (r: Option<&'static str>)
    ensures
        r is Some <==> spec_library_extension(os@) is Some,
        r is Some ==> r.unwrap()@ == spec_library_extension(os@).unwrap(),
{
    if str_eq(os, "linux") {
        Some(".so")
    } else if str_eq(os, "windows") {
        Some(".dll")
    } else if str_eq(os, "macos") {
        Some(".dylib")
    } else {
        None
    }
}

/// A file is a module candidate when its name ends with the extension; its
/// module name is the file name with the extension stripped.
pub open spec fn spec_module_name(file_name: Seq<char>, ext: Seq<char>) -> Option<Seq<char>> {
    if file_name.len() >= ext.len() && file_name.skip(file_name.len() - ext.len()) == ext {
        Some(file_name.take(file_name.len() - ext.len()))
    } else {
        None
    }
}

/// The module name a directory entry contributes, if it is a candidate.
pub fn module_name_from_file(file_name: &str, ext: &str) -> (r: Option<String>)
    ensures
        r is Some <==> spec_module_name(file_name@, ext@) is Some,
        r is Some ==> r.unwrap()@ == spec_module_name(file_name@, ext@).unwrap(),
{
    let flen = file_name.unicode_len();
    let elen = ext.unicode_len();
    if flen < elen {
        return None;
    }
    if str_matches_at(file_name, flen - elen, ext) {
        assert(file_name@.skip(flen - elen) =~= file_name@.subrange(
            flen - elen,
            flen as int,
        ));
        let name = file_name.substring_char(0, flen - elen).to_owned();
        assert(name@ =~= file_name@.take(flen - elen));
        Some(name)
    } else {
        assert(file_name@.skip(flen - elen) =~= file_name@.subrange(
            flen - elen,
            flen as int,
        ));
        None
    }
}

/// Which optional entry points a loaded module resolved. A missing symbol
/// means the capability is absent, never an error.
#[derive(Copy, Clone, PartialEq, Eq, Structural, Debug)]
pub struct ModuleHooks {
    pub init: bool,
    pub database: bool,
    pub models: bool,
    pub routes: bool,
}

/// What the host knows of a loaded module: its name (the file's base name)
/// and the capabilities it resolved. The library handle and the function
/// pointers themselves live with the loader, which keeps every loaded
/// library alive for the rest of the process.
pub struct ModuleInfo {
    pub name: String,
    pub hooks: ModuleHooks,
}

/// The three lifecycle hooks the host invokes after every module is loaded,
/// in this order across all modules: database providers, then model
/// registration, then route registration.
#[derive(Copy, Clone, PartialEq, Eq, Structural, Debug)]
pub enum HookKind {
    ProvideDatabase,
    ProvideModels,
    ProvideRoutes,
}

/// One planned invocation: which module, which hook.
#[derive(Copy, Clone, PartialEq, Eq, Structural, Debug)]
pub struct HookCall {
    pub module_index: usize,
    pub hook: HookKind,
}

pub open spec fn spec_hook_enabled(hooks: ModuleHooks, kind: HookKind) -> bool {
    match kind {
        HookKind::ProvideDatabase => hooks.database,
        HookKind::ProvideModels => hooks.models,
        HookKind::ProvideRoutes => hooks.routes,
    }
}

/// One stage of the plan: every module exposing the hook, in module order,
/// starting at module `i`.
pub open spec fn spec_stage(mods: Seq<ModuleHooks>, kind: HookKind, i: int) -> Seq<HookCall>
    recommends
        0 <= i <= mods.len(),
    decreases mods.len() - i,
{
    if i < 0 || i >= mods.len() {
        Seq::empty()
    } else {
        (if spec_hook_enabled(mods[i], kind) {
            seq![HookCall { module_index: i as usize, hook: kind }]
        } else {
            Seq::empty()
        }) + spec_stage(mods, kind, i + 1)
    }
}

/// The whole lifecycle plan: stage one connects databases, stage two
/// registers models, stage three registers routes.
pub open spec fn spec_lifecycle_plan(mods: Seq<ModuleHooks>) -> Seq<HookCall> {
    spec_stage(mods, HookKind::ProvideDatabase, 0) + spec_stage(mods, HookKind::ProvideModels, 0)
        + spec_stage(mods, HookKind::ProvideRoutes, 0)
}

fn stage_calls(mods: &Vec<ModuleInfo>, kind: HookKind, out: &mut Vec<HookCall>)
    ensures
        final(out)@ == old(out)@ + spec_stage(
            mods@.map_values(|m: ModuleInfo| m.hooks),
            kind,
            0,
        ),
{
    let ghost hooks = mods@.map_values(|m: ModuleInfo| m.hooks);
    let n = mods.len();
    let mut i: usize = 0;
    while i < n
        invariant
            i <= n == mods@.len(),
            hooks == mods@.map_values(|m: ModuleInfo| m.hooks),
            spec_stage(hooks, kind, 0) == out@.skip(old(out)@.len() as int) + spec_stage(
                hooks,
                kind,
                i as int,
            ),
            out@.len() >= old(out)@.len(),
            out@.subrange(0, old(out)@.len() as int) == old(out)@,
        decreases n - i,
    {
        let enabled = match kind {
            HookKind::ProvideDatabase => mods[i].hooks.database,
            HookKind::ProvideModels => mods[i].hooks.models,
            HookKind::ProvideRoutes => mods[i].hooks.routes,
        };
        if enabled {
            out.push(HookCall { module_index: i, hook: kind });
        }
        i = i + 1;
        proof {
            assert(out@.subrange(0, old(out)@.len() as int) =~= old(out)@);
            if enabled {
                assert(out@.skip(old(out)@.len() as int) =~= out@.skip(
                    old(out)@.len() as int,
                ).take(out@.len() - old(out)@.len() - 1).push(
                    HookCall { module_index: (i - 1) as usize, hook: kind },
                ));
            }
            assert(spec_stage(hooks, kind, 0) =~= out@.skip(old(out)@.len() as int) + spec_stage(
                hooks,
                kind,
                i as int,
            ));
        }
    }
    assert(final(out)@ =~= old(out)@ + final(out)@.skip(old(out)@.len() as int));
}

/// Computes the lifecycle plan for the loaded modules.
pub fn lifecycle_plan(mods: &Vec<ModuleInfo>) -> (r: Vec<HookCall>)
    ensures
        r@ == spec_lifecycle_plan(mods@.map_values(|m: ModuleInfo| m.hooks)),
{
    let mut out: Vec<HookCall> = Vec::new();
    stage_calls(mods, HookKind::ProvideDatabase, &mut out);
    stage_calls(mods, HookKind::ProvideModels, &mut out);
    stage_calls(mods, HookKind::ProvideRoutes, &mut out);
    assert(out@ =~= spec_lifecycle_plan(mods@.map_values(|m: ModuleInfo| m.hooks)));
    out
}

proof fn lemma_stage_entries(mods: Seq<ModuleHooks>, kind: HookKind, i: int)
    requires
        0 <= i <= mods.len(),
        mods.len() <= usize::MAX,
    ensures
        forall|k: int|
            0 <= k < spec_stage(mods, kind, i).len() ==> {
                let e = #[trigger] spec_stage(mods, kind, i)[k];
                &&& i <= e.module_index < mods.len()
                &&& spec_hook_enabled(mods[e.module_index as int], kind)
                &&& e.hook == kind
            },
    decreases mods.len() - i,
{
    if i < mods.len() {
        lemma_stage_entries(mods, kind, i + 1);
        let rest = spec_stage(mods, kind, i + 1);
        let cur = spec_stage(mods, kind, i);
        assert forall|k: int|
            0 <= k < cur.len() implies {
            let e = #[trigger] cur[k];
            &&& i <= e.module_index < mods.len()
            &&& spec_hook_enabled(mods[e.module_index as int], kind)
            &&& e.hook == kind
        } by {
            if spec_hook_enabled(mods[i], kind) {
                let one = seq![HookCall { module_index: i as usize, hook: kind }];
                assert(cur == one + rest);
                if k == 0 {
                    assert(cur[k] == one[0]);
                } else {
                    assert(cur[k] == rest[k - 1]);
                }
            } else {
                assert(cur == Seq::<HookCall>::empty() + rest);
                assert(cur[k] == rest[k]);
            }
        }
    }
}

/// Law: a module that resolved none of the lifecycle hooks appears nowhere
/// in the plan; it contributes no database, no models and no routes.
pub proof fn lemma_inert_module_contributes_nothing(mods: Seq<ModuleHooks>, m: int)
    requires
        0 <= m < mods.len(),
        mods.len() <= usize::MAX,
        !mods[m].database,
        !mods[m].models,
        !mods[m].routes,
    ensures
        forall|k: int|
            0 <= k < spec_lifecycle_plan(mods).len() ==> #[trigger] spec_lifecycle_plan(
                mods,
            )[k].module_index != m,
{
    lemma_stage_entries(mods, HookKind::ProvideDatabase, 0);
    lemma_stage_entries(mods, HookKind::ProvideModels, 0);
    lemma_stage_entries(mods, HookKind::ProvideRoutes, 0);
    let s1 = spec_stage(mods, HookKind::ProvideDatabase, 0);
    let s2 = spec_stage(mods, HookKind::ProvideModels, 0);
    let s3 = spec_stage(mods, HookKind::ProvideRoutes, 0);
    assert forall|k: int|
        0 <= k < spec_lifecycle_plan(mods).len() implies #[trigger] spec_lifecycle_plan(
        mods,
    )[k].module_index != m by {
        let e = spec_lifecycle_plan(mods)[k];
        if k < s1.len() {
            assert(e == s1[k]);
        } else if k < s1.len() + s2.len() {
            assert(e == s2[k - s1.len()]);
        } else {
            assert(e == s3[k - s1.len() - s2.len()]);
        }
    }
}

} // verus!
