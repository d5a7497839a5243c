use vstd::prelude::*;
use vstd::string::StringExecFns;

verus! {

/// One filesystem mutation of the pipeline, for the caller to perform in
/// plan order. The pipeline itself only decides; the caller executes.
pub enum FsAction {
    /// Remove the symbolic link at this absolute path.
    RemoveLink { path: String },
    /// Recursively delete the install root.
    RemoveRoot,
    /// Create the install root, missing parents included.
    CreateRoot,
    /// Extract the named version's archive into the install root.
    Extract { version: String },
    /// Create a symbolic link at `path` pointing at `target`.
    CreateLink { path: String, target: String },
}

/// The mathematical content of one action.
pub ghost enum FsActionModel {
    RemoveLink { path: Seq<char> },
    RemoveRoot,
    CreateRoot,
    Extract { version: Seq<char> },
    CreateLink { path: Seq<char>, target: Seq<char> },
}

impl View for FsAction {
    type V = FsActionModel;

    open spec fn view(&self) -> FsActionModel {
        match self {
            FsAction::RemoveLink { path } => FsActionModel::RemoveLink { path: path@ },
            FsAction::RemoveRoot => FsActionModel::RemoveRoot,
            FsAction::CreateRoot => FsActionModel::CreateRoot,
            FsAction::Extract { version } => FsActionModel::Extract { version: version@ },
            FsAction::CreateLink { path, target } => FsActionModel::CreateLink {
                path: path@,
                target: target@,
            },
        }
    }
}

impl DeepView for FsAction {
    type V = FsActionModel;

    open spec fn deep_view(&self) -> FsActionModel {
        self.view()
    }
}

/// An abstract picture of the only host state the pipeline owns: whether
/// the install root exists, which version's archive fills it, and where
/// each published symbolic link points.
pub ghost struct FsModel {
    pub root_exists: bool,
    pub root_contents: Option<Seq<char>>,
    pub links: Map<Seq<char>, Seq<char>>,
}

/// What performing one action does to the host state.
pub open spec fn apply_action(s: FsModel, a: FsActionModel) -> FsModel {
    match a {
        FsActionModel::RemoveLink { path } => FsModel {
            root_exists: s.root_exists,
            root_contents: s.root_contents,
            links: s.links.remove(path),
        },
        FsActionModel::RemoveRoot => FsModel {
            root_exists: false,
            root_contents: None,
            links: s.links,
        },
        FsActionModel::CreateRoot => FsModel {
            root_exists: true,
            root_contents: None,
            links: s.links,
        },
        FsActionModel::Extract { version } => FsModel {
            root_exists: s.root_exists,
            root_contents: Some(version),
            links: s.links,
        },
        FsActionModel::CreateLink { path, target } => FsModel {
            root_exists: s.root_exists,
            root_contents: s.root_contents,
            links: s.links.insert(path, target),
        },
    }
}

/// What performing a whole plan, in order, does to the host state.
pub open spec fn apply_all(s: FsModel, actions: Seq<FsActionModel>) -> FsModel
    decreases actions.len(),
{
    if actions.len() == 0 {
        s
    } else {
        apply_all(apply_action(s, actions[0]), actions.skip(1))
    }
}

/// The fixed published executable names, in order.
pub open spec fn link_names() -> Seq<Seq<char>> {
    seq!["node"@, "npm"@, "npx"@]
}

/// The fixed directories links are published into, in order.
pub open spec fn link_dirs() -> Seq<Seq<char>> {
    seq!["/usr/bin"@, "/usr/sbin"@, "/usr/local/bin"@]
}

/// The absolute path of published link `k`, for `k` in 0..9: the three
/// names in each of the three directories, directory-major.
pub open spec fn nth_link_path(k: int) -> Seq<char> {
    link_dirs()[k / 3] + seq!['/'] + link_names()[k % 3]
}

/// Where published link `k` points: the matching executable in the install
/// root's bin directory.
pub open spec fn nth_link_target(root: Seq<char>, k: int) -> Seq<char> {
    root + "/bin/"@ + link_names()[k % 3]
}

/// The actions that remove a prior installation: unlink each published
/// link, then delete the install root.
pub open spec fn uninstall_plan_spec() -> Seq<FsActionModel> {
    Seq::new(9, |k: int| FsActionModel::RemoveLink { path: nth_link_path(k) }) + seq![
        FsActionModel::RemoveRoot,
    ]
}

/// The actions that publish the nine links for an installation under `root`.
pub open spec fn publish_plan_spec(root: Seq<char>) -> Seq<FsActionModel> {
    Seq::new(
        9,
        |k: int| FsActionModel::CreateLink {
            path: nth_link_path(k),
            target: nth_link_target(root, k),
        },
    )
}

/// One whole installation of `version` under `root`: the uninstall actions
/// when a prior installation exists, then root creation, extraction, and
/// link publication.
pub open spec fn install_plan_spec(root: Seq<char>, prior_exists: bool, version: Seq<char>) -> Seq<
    FsActionModel,
> {
    (if prior_exists {
        uninstall_plan_spec()
    } else {
        Seq::<FsActionModel>::empty()
    }) + seq![FsActionModel::CreateRoot, FsActionModel::Extract { version }] + publish_plan_spec(
        root,
    )
}

/// The absolute path of one published link.
fn link_path_at(dir: &str, name: &str) -> (r: String)
    ensures
        r@ == dir@ + seq!['/'] + name@,
{
    let r = String::from_str(dir).concat("/").concat(name);
    proof {
        reveal_strlit("/");
        assert(r@ =~= dir@ + seq!['/'] + name@);
    }
    r
}

/// Where one published link points under the install root.
fn link_target_at(root: &str, name: &str) -> (r: String)
    ensures
        r@ == root@ + "/bin/"@ + name@,
{
    String::from_str(root).concat("/bin/").concat(name)
}

/// The nine published link paths, in plan order.
fn link_paths() -> (r: Vec<String>)
    ensures
        r@.len() == 9,
        forall|k: int| 0 <= k < 9 ==> (#[trigger] r@[k])@ == nth_link_path(k),
{
    let mut r: Vec<String> = Vec::new();
    r.push(link_path_at("/usr/bin", "node"));
    r.push(link_path_at("/usr/bin", "npm"));
    r.push(link_path_at("/usr/bin", "npx"));
    r.push(link_path_at("/usr/sbin", "node"));
    r.push(link_path_at("/usr/sbin", "npm"));
    r.push(link_path_at("/usr/sbin", "npx"));
    r.push(link_path_at("/usr/local/bin", "node"));
    r.push(link_path_at("/usr/local/bin", "npm"));
    r.push(link_path_at("/usr/local/bin", "npx"));
    proof {
        assert forall|k: int| 0 <= k < 9 implies (#[trigger] r@[k])@ == nth_link_path(k) by {
            if k == 0 {
            } else if k == 1 {
            } else if k == 2 {
            } else if k == 3 {
            } else if k == 4 {
            } else if k == 5 {
            } else if k == 6 {
            } else if k == 7 {
            } else {
                assert(k == 8);
            }
        }
    }
    r
}

/// The actions that remove a prior installation, in execution order.
pub fn build_uninstall_plan() -> (r: Vec<FsAction>)
    ensures
        r.deep_view() == uninstall_plan_spec(),
{
    let mut r: Vec<FsAction> = Vec::new();
    let mut paths = link_paths();
    let mut i: usize = 0;
    while i < 9
        invariant
            i <= 9,
            paths@.len() == 9,
            forall|k: int| 0 <= k < 9 ==> (#[trigger] paths@[k])@ == nth_link_path(k),
            r.deep_view() =~= Seq::new(
                i as nat,
                |k: int| FsActionModel::RemoveLink { path: nth_link_path(k) },
            ),
        decreases 9 - i,
    {
        let ghost pre = r.deep_view();
        let p = paths[i].clone();
        r.push(FsAction::RemoveLink { path: p });
        proof {
            assert(r.deep_view() =~= pre.push(
                FsActionModel::RemoveLink { path: nth_link_path(i as int) },
            ));
            assert(r.deep_view() =~= Seq::new(
                (i + 1) as nat,
                |k: int| FsActionModel::RemoveLink { path: nth_link_path(k) },
            ));
        }
        i += 1;
    }
    let ghost pre = r.deep_view();
    r.push(FsAction::RemoveRoot);
    proof {
        assert(r.deep_view() =~= pre.push(FsActionModel::RemoveRoot));
        assert(r.deep_view() =~= uninstall_plan_spec());
    }
    r
}

/// The actions that publish the nine links, in execution order.
pub fn build_publish_plan(install_root: &str) -> (r: Vec<FsAction>)
    ensures
        r.deep_view() == publish_plan_spec(install_root@),
{
    let mut r: Vec<FsAction> = Vec::new();
    let paths = link_paths();
    let mut names: Vec<&str> = Vec::new();
    names.push("node");
    names.push("npm");
    names.push("npx");
    let mut i: usize = 0;
    while i < 9
        invariant
            i <= 9,
            paths@.len() == 9,
            names@.len() == 3,
            forall|k: int| 0 <= k < 9 ==> (#[trigger] paths@[k])@ == nth_link_path(k),
            forall|k: int| 0 <= k < 3 ==> (#[trigger] names@[k])@ == link_names()[k],
            r.deep_view() =~= Seq::new(
                i as nat,
                |k: int| FsActionModel::CreateLink {
                    path: nth_link_path(k),
                    target: nth_link_target(install_root@, k),
                },
            ),
        decreases 9 - i,
    {
        let ghost pre = r.deep_view();
        let p = paths[i].clone();
        let t = link_target_at(install_root, names[i % 3]);
        proof {
            assert(names@[(i % 3) as int]@ == link_names()[(i as int) % 3]);
        }
        r.push(FsAction::CreateLink { path: p, target: t });
        proof {
            assert(r.deep_view() =~= pre.push(
                FsActionModel::CreateLink {
                    path: nth_link_path(i as int),
                    target: nth_link_target(install_root@, i as int),
                },
            ));
            assert(r.deep_view() =~= Seq::new(
                (i + 1) as nat,
                |k: int| FsActionModel::CreateLink {
                    path: nth_link_path(k),
                    target: nth_link_target(install_root@, k),
                },
            ));
        }
        i += 1;
    }
    proof {
        assert(r.deep_view() =~= publish_plan_spec(install_root@));
    }
    r
}

/// One whole installation's actions, in execution order.
pub fn build_install_plan(install_root: &str, prior_exists: bool, version: &String) -> (r: Vec<
    FsAction,
>)
    ensures
        r.deep_view() == install_plan_spec(install_root@, prior_exists, version@),
{
    let mut r: Vec<FsAction> = if prior_exists {
        build_uninstall_plan()
    } else {
        Vec::new()
    };
    let ghost pre = r.deep_view();
    r.push(FsAction::CreateRoot);
    r.push(FsAction::Extract { version: version.clone() });
    let mut links = build_publish_plan(install_root);
    let ghost pub_dv = links.deep_view();
    r.append(&mut links);
    proof {
        assert(r.deep_view() =~= pre + seq![
            FsActionModel::CreateRoot,
            FsActionModel::Extract { version: version@ },
        ] + pub_dv);
        assert(r.deep_view() =~= install_plan_spec(install_root@, prior_exists, version@));
    }
    r
}

/// Performing a plan made of two parts is performing the first, then the
/// second from where the first left off.
pub proof fn lemma_apply_all_append(s: FsModel, a: Seq<FsActionModel>, b: Seq<FsActionModel>)
    ensures
        apply_all(s, a + b) == apply_all(apply_all(s, a), b),
    decreases a.len(),
{
    if a.len() == 0 {
        assert(a + b =~= b);
    } else {
        assert((a + b)[0] == a[0]);
        assert((a + b).skip(1) =~= a.skip(1) + b);
        lemma_apply_all_append(apply_action(s, a[0]), a.skip(1), b);
    }
}

/// The nine published link paths are pairwise distinct.
proof fn lemma_link_paths_distinct()
    ensures
        forall|k1: int, k2: int|
            0 <= k1 < 9 && 0 <= k2 < 9 && k1 != k2 ==> nth_link_path(k1) != nth_link_path(k2),
{
    reveal_strlit("node");
    reveal_strlit("npm");
    reveal_strlit("npx");
    reveal_strlit("/usr/bin");
    reveal_strlit("/usr/sbin");
    reveal_strlit("/usr/local/bin");
    assert(nth_link_path(0)[5] != nth_link_path(3)[5]);
    assert(nth_link_path(0)[5] != nth_link_path(4)[5]);
    assert(nth_link_path(0)[5] != nth_link_path(5)[5]);
    assert(nth_link_path(1)[11] != nth_link_path(2)[11]);
    assert(nth_link_path(4)[12] != nth_link_path(5)[12]);
    assert(nth_link_path(7)[17] != nth_link_path(8)[17]);
    assert forall|k1: int, k2: int|
        0 <= k1 < 9 && 0 <= k2 < 9 && k1 != k2 implies nth_link_path(k1) != nth_link_path(
        k2,
    ) by {
        assert(nth_link_path(k1).len() == link_dirs()[k1 / 3].len() + 1 + link_names()[
            k1 % 3
        ].len());
        assert(nth_link_path(k2).len() == link_dirs()[k2 / 3].len() + 1 + link_names()[
            k2 % 3
        ].len());
    }
}

/// Publishing the remaining links from index `i` on leaves the root alone,
/// sets each remaining link, and leaves every earlier link path untouched.
proof fn lemma_apply_publish_suffix(s: FsModel, root: Seq<char>, i: int)
    requires
        0 <= i <= 9,
    ensures
        apply_all(s, publish_plan_spec(root).skip(i)).root_exists == s.root_exists,
        apply_all(s, publish_plan_spec(root).skip(i)).root_contents == s.root_contents,
        forall|k: int|
            i <= k < 9 ==> apply_all(s, publish_plan_spec(root).skip(i)).links.contains_key(
                #[trigger] nth_link_path(k),
            ) && apply_all(s, publish_plan_spec(root).skip(i)).links[nth_link_path(k)]
                == nth_link_target(root, k),
        forall|k: int|
            0 <= k < i ==> apply_all(s, publish_plan_spec(root).skip(i)).links.contains_key(
                #[trigger] nth_link_path(k),
            ) == s.links.contains_key(nth_link_path(k)) && (s.links.contains_key(nth_link_path(k))
                ==> apply_all(s, publish_plan_spec(root).skip(i)).links[nth_link_path(k)]
                == s.links[nth_link_path(k)]),
    decreases 9 - i,
{
    let plan = publish_plan_spec(root);
    if i == 9 {
        assert(plan.skip(9) =~= Seq::<FsActionModel>::empty());
    } else {
        assert(plan.skip(i)[0] == plan[i]);
        assert(plan.skip(i).skip(1) =~= plan.skip(i + 1));
        assert(plan[i] == FsActionModel::CreateLink {
            path: nth_link_path(i),
            target: nth_link_target(root, i),
        });
        let s2 = apply_action(s, plan[i]);
        lemma_apply_publish_suffix(s2, root, i + 1);
        lemma_link_paths_distinct();
        let sf = apply_all(s, plan.skip(i));
        assert(sf == apply_all(s2, plan.skip(i + 1)));
        assert forall|k: int|
            i <= k < 9 implies sf.links.contains_key(#[trigger] nth_link_path(k))
                && sf.links[nth_link_path(k)] == nth_link_target(root, k) by {
            if k == i {
                assert(s2.links.contains_key(nth_link_path(i)));
                assert(s2.links[nth_link_path(i)] == nth_link_target(root, i));
                assert(sf.links.contains_key(nth_link_path(i)) == s2.links.contains_key(
                    nth_link_path(i),
                ));
            }
        }
        assert forall|k: int|
            0 <= k < i implies sf.links.contains_key(#[trigger] nth_link_path(k))
                == s.links.contains_key(nth_link_path(k)) && (s.links.contains_key(
                nth_link_path(k),
            ) ==> sf.links[nth_link_path(k)] == s.links[nth_link_path(k)]) by {
            assert(nth_link_path(k) != nth_link_path(i));
            assert(s2.links.contains_key(nth_link_path(k)) == s.links.contains_key(
                nth_link_path(k),
            ));
            assert(s.links.contains_key(nth_link_path(k)) ==> s2.links[nth_link_path(k)]
                == s.links[nth_link_path(k)]);
        }
    }
}

/// Running one whole installation plan, from any host state, leaves the
/// install root existing, filled with exactly the installed version's
/// contents, and each of the nine published links pointing at the matching
/// executable under the root's bin directory.
pub proof fn lemma_apply_install_plan(
    s: FsModel,
    root: Seq<char>,
    prior_exists: bool,
    version: Seq<char>,
)
    ensures
        apply_all(s, install_plan_spec(root, prior_exists, version)).root_exists,
        apply_all(s, install_plan_spec(root, prior_exists, version)).root_contents == Some(version),
        forall|k: int|
            0 <= k < 9 ==> apply_all(s, install_plan_spec(root, prior_exists, version)).links.contains_key(
                #[trigger] nth_link_path(k),
            ) && apply_all(s, install_plan_spec(root, prior_exists, version)).links[nth_link_path(
                k,
            )] == nth_link_target(root, k),
{
    let pre = if prior_exists {
        uninstall_plan_spec()
    } else {
        Seq::<FsActionModel>::empty()
    };
    let mid = seq![FsActionModel::CreateRoot, FsActionModel::Extract { version }];
    lemma_apply_all_append(s, pre + mid, publish_plan_spec(root));
    assert(install_plan_spec(root, prior_exists, version) == (pre + mid) + publish_plan_spec(root));
    let s1 = apply_all(s, pre + mid);
    lemma_apply_all_append(s, pre, mid);
    let s0 = apply_all(s, pre);
    let sa = apply_action(s0, FsActionModel::CreateRoot);
    let sb = apply_action(sa, FsActionModel::Extract { version });
    assert(mid[0] == FsActionModel::CreateRoot);
    assert(mid.skip(1) =~= seq![FsActionModel::Extract { version }]);
    assert(mid.skip(1)[0] == FsActionModel::Extract { version });
    assert(mid.skip(1).skip(1) =~= Seq::<FsActionModel>::empty());
    assert(apply_all(sb, mid.skip(1).skip(1)) == sb);
    assert(apply_all(sa, mid.skip(1)) == sb);
    assert(apply_all(s0, mid) == sb);
    assert(s1.root_exists);
    assert(s1.root_contents == Some(version));
    assert(publish_plan_spec(root).skip(0) =~= publish_plan_spec(root));
    lemma_apply_publish_suffix(s1, root, 0);
}

/// Law: installing twice round-trips. From any host state, running the plan
/// for one version and then the plan for another — the second seeing the
/// root the first left behind — leaves the root holding exactly the second
/// version's contents, with each of the nine published links pointing at
/// the matching executable under the current root's bin directory.
pub proof fn lemma_install_round_trip(s0: FsModel, root: Seq<char>, v1: Seq<char>, v2: Seq<char>)
    ensures
        ({
            let s1 = apply_all(s0, install_plan_spec(root, s0.root_exists, v1));
            let s2 = apply_all(s1, install_plan_spec(root, s1.root_exists, v2));
            &&& s2.root_exists
            &&& s2.root_contents == Some(v2)
            &&& forall|k: int|
                0 <= k < 9 ==> s2.links.contains_key(#[trigger] nth_link_path(k))
                    && s2.links[nth_link_path(k)] == nth_link_target(root, k)
        }),
{
    lemma_apply_install_plan(s0, root, s0.root_exists, v1);
    let s1 = apply_all(s0, install_plan_spec(root, s0.root_exists, v1));
    lemma_apply_install_plan(s1, root, s1.root_exists, v2);
}

} // verus!
