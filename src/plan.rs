use vstd::prelude::*;
use crate::names::{file_name_of, names_of, get_name, folder_contains_file_name};
use crate::versions::{Version, VersionView};

verus! {

/// The two artifacts of a version, each tracked in its own directory.
#[derive(Clone, Copy, Debug, PartialEq, Eq, Structural)]
pub enum ArtifactKind {
    Server,
    Installer,
}

/// Fetch `url` and store it as `file_name` in the directory of `kind`.
pub struct DownloadTask {
    pub url: String,
    pub kind: ArtifactKind,
    pub file_name: String,
}

pub struct DownloadTaskView {
    pub url: Seq<char>,
    pub kind: ArtifactKind,
    pub file_name: Seq<char>,
}

impl View for DownloadTask {
    type V = DownloadTaskView;

    open spec fn view(&self) -> DownloadTaskView {
        DownloadTaskView { url: self.url@, kind: self.kind, file_name: self.file_name@ }
    }
}

/// Delete the file `file_name` from the directory of `kind`.
pub struct PruneTask {
    pub kind: ArtifactKind,
    pub file_name: String,
}

pub struct PruneTaskView {
    pub kind: ArtifactKind,
    pub file_name: Seq<char>,
}

impl View for PruneTask {
    type V = PruneTaskView;

    open spec fn view(&self) -> PruneTaskView {
        PruneTaskView { kind: self.kind, file_name: self.file_name@ }
    }
}

/// The work that brings one channel's directories in line with its catalog.
pub struct ChannelPlan {
    pub downloads: Vec<DownloadTask>,
    pub prunes: Vec<PruneTask>,
}

pub struct ChannelPlanView {
    pub downloads: Seq<DownloadTaskView>,
    pub prunes: Seq<PruneTaskView>,
}

pub open spec fn download_views(ts: Seq<DownloadTask>) -> Seq<DownloadTaskView> {
    ts.map_values(|t: DownloadTask| t@)
}

pub open spec fn prune_views(ts: Seq<PruneTask>) -> Seq<PruneTaskView> {
    ts.map_values(|t: PruneTask| t@)
}

impl View for ChannelPlan {
    type V = ChannelPlanView;

    open spec fn view(&self) -> ChannelPlanView {
        ChannelPlanView {
            downloads: download_views(self.downloads@),
            prunes: prune_views(self.prunes@),
        }
    }
}

/// The URL of a record's artifact of the given kind.
pub open spec fn link_of(v: VersionView, kind: ArtifactKind) -> Seq<char> {
    match kind {
        ArtifactKind::Server => v.link,
        ArtifactKind::Installer => v.installer_link,
    }
}

/// The file name under which a record's artifact of the given kind is stored.
pub open spec fn artifact_name(v: VersionView, kind: ArtifactKind) -> Seq<char> {
    file_name_of(link_of(v, kind))
}

/// Whether a cap keeps every record: it is zero, or no smaller than the list.
pub open spec fn keeps_all(len: nat, cap: nat) -> bool {
    cap == 0 || len <= cap
}

/// The records that a retention cap keeps: all of them, or the first `cap`.
pub open spec fn keep_of(rs: Seq<Version>, cap: nat) -> Seq<Version> {
    if keeps_all(rs.len(), cap) {
        rs
    } else {
        rs.take(cap as int)
    }
}

/// The records that a retention cap leaves stale: none, or all after the first `cap`.
pub open spec fn stale_of(rs: Seq<Version>, cap: nat) -> Seq<Version> {
    if keeps_all(rs.len(), cap) {
        Seq::empty()
    } else {
        rs.skip(cap as int)
    }
}

/// Whether some stale record stores its artifact of `kind` under `name`.
pub open spec fn is_stale_name(stale: Seq<Version>, kind: ArtifactKind, name: Seq<char>) -> bool {
    exists|j: int| 0 <= j < stale.len() && artifact_name(stale[j]@, kind) == name
}

/// One removal for each file of the directory, in listing order, whose name
/// is that of a stale record's artifact of `kind`.
pub open spec fn prunes_for(names: Seq<Seq<char>>, stale: Seq<Version>, kind: ArtifactKind) -> Seq<
    PruneTaskView,
>
    decreases names.len(),
{
    if names.len() == 0 {
        Seq::empty()
    } else {
        let rest = prunes_for(names.drop_last(), stale, kind);
        if is_stale_name(stale, kind, names.last()) {
            rest.push(PruneTaskView { kind, file_name: names.last() })
        } else {
            rest
        }
    }
}

/// A fetch of `link` when the directory lacks its file name, else nothing.
pub open spec fn link_download(names: Seq<Seq<char>>, kind: ArtifactKind, link: Seq<char>) -> Seq<
    DownloadTaskView,
> {
    if names.contains(file_name_of(link)) {
        Seq::empty()
    } else {
        seq![DownloadTaskView { url: link, kind, file_name: file_name_of(link) }]
    }
}

/// The fetches for one kept record: its server artifact when missing, then
/// its installer artifact when missing and at a URL of its own.
pub open spec fn record_downloads(
    v: VersionView,
    server: Seq<Seq<char>>,
    installer: Seq<Seq<char>>,
) -> Seq<DownloadTaskView> {
    link_download(server, ArtifactKind::Server, v.link) + if v.link == v.installer_link {
        Seq::empty()
    } else {
        link_download(installer, ArtifactKind::Installer, v.installer_link)
    }
}

/// The fetches for all kept records, record by record.
pub open spec fn downloads_for(
    keep: Seq<Version>,
    server: Seq<Seq<char>>,
    installer: Seq<Seq<char>>,
) -> Seq<DownloadTaskView>
    decreases keep.len(),
{
    if keep.len() == 0 {
        Seq::empty()
    } else {
        downloads_for(keep.drop_last(), server, installer) + record_downloads(
            keep.last()@,
            server,
            installer,
        )
    }
}

/// The plan of a channel with records `rs`, a retention cap and the names
/// found in its server and installer directories.
pub open spec fn plan_of(
    rs: Seq<Version>,
    cap: nat,
    server: Seq<Seq<char>>,
    installer: Seq<Seq<char>>,
) -> ChannelPlanView {
    ChannelPlanView {
        downloads: downloads_for(keep_of(rs, cap), server, installer),
        prunes: prunes_for(server, stale_of(rs, cap), ArtifactKind::Server) + prunes_for(
            installer,
            stale_of(rs, cap),
            ArtifactKind::Installer,
        ),
    }
}

/// Splits the catalog into the records to keep and the stale ones. The
/// catalog's order is trusted as newest first; nothing is re-sorted.
pub fn split_versions(versions: Vec<Version>, cap: usize) -> (r: (Vec<Version>, Vec<Version>))
    ensures
        r.0@ == keep_of(versions@, cap as nat),
        r.1@ == stale_of(versions@, cap as nat),
{
    let mut versions = versions;
    if versions.len() <= cap || cap == 0 {
        (versions, Vec::new())
    } else {
        let old_versions = versions.split_off(cap);
        (versions, old_versions)
    }
}

fn artifact_link(v: &Version, kind: ArtifactKind) -> (r: &String)
    ensures
        r@ == link_of(v@, kind),
{
    match kind {
        ArtifactKind::Server => v.get_link(),
        ArtifactKind::Installer => v.get_installer_link(),
    }
}

/// Whether some record of `stale` stores its artifact of `kind` as `name`.
pub fn matches_stale_record(stale: &Vec<Version>, kind: ArtifactKind, name: &String) -> (r: bool)
    ensures
        r == is_stale_name(stale@, kind, name@),
{
    let mut j: usize = 0;
    while j < stale.len()
        invariant
            j <= stale@.len(),
            forall|k: int| 0 <= k < j ==> artifact_name(stale@[k]@, kind) != name@,
        decreases stale@.len() - j,
    {
        let file_name = get_name(artifact_link(&stale[j], kind)).to_owned();
        if file_name == *name {
            return true;
        }
        j = j + 1;
    }
    false
}

/// Appends a removal for each file of `folder` that a stale record names.
pub fn collect_prunes(
    folder: &Vec<String>,
    stale: &Vec<Version>,
    kind: ArtifactKind,
    prunes: &mut Vec<PruneTask>,
)
    ensures
        prune_views(final(prunes)@) == prune_views(old(prunes)@) + prunes_for(
            names_of(folder@),
            stale@,
            kind,
        ),
{
    let ghost start = prune_views(prunes@);
    let mut i: usize = 0;
    while i < folder.len()
        invariant
            i <= folder@.len(),
            prune_views(prunes@) == start + prunes_for(names_of(folder@).take(i as int), stale@, kind),
        decreases folder@.len() - i,
    {
        let ghost before = prunes@;
        assert(names_of(folder@).take(i + 1).drop_last() =~= names_of(folder@).take(i as int));
        if matches_stale_record(stale, kind, &folder[i]) {
            prunes.push(PruneTask { kind, file_name: folder[i].clone() });
            assert(prune_views(prunes@) =~= prune_views(before).push(
                PruneTaskView { kind, file_name: folder@[i as int]@ },
            ));
        }
        i = i + 1;
    }
    assert(names_of(folder@).take(folder@.len() as int) =~= names_of(folder@));
}

/// Appends a fetch of `link` into the directory of `kind` unless `folder`
/// already holds its file name.
pub fn download_link(
    folder: &Vec<String>,
    kind: ArtifactKind,
    link: &String,
    downloads: &mut Vec<DownloadTask>,
)
    ensures
        download_views(final(downloads)@) == download_views(old(downloads)@) + link_download(
            names_of(folder@),
            kind,
            link@,
        ),
{
    let file_name = get_name(link).to_owned();
    let ghost before = downloads@;
    match folder_contains_file_name(folder, &file_name) {
        None => {
            downloads.push(DownloadTask { url: link.clone(), kind, file_name });
            assert(download_views(downloads@) =~= download_views(before) + link_download(
                names_of(folder@),
                kind,
                link@,
            ));
        },
        Some(i) => {
            assert(names_of(folder@)[i as int] == file_name@);
            assert(download_views(downloads@) =~= download_views(before) + link_download(
                names_of(folder@),
                kind,
                link@,
            ));
        },
    }
}

/// Decides the removals and fetches that bring a channel's `server` and
/// `installer` directories in line with its catalog `versions` under the
/// retention cap `cap` (zero keeps everything).
pub fn plan_channel(
    versions: Vec<Version>,
    cap: usize,
    server: &Vec<String>,
    installer: &Vec<String>,
) -> (r: ChannelPlan)
    ensures
        r@ == plan_of(versions@, cap as nat, names_of(server@), names_of(installer@)),
{
    let ghost all = versions@;
    let (keep, stale) = split_versions(versions, cap);
    let mut prunes: Vec<PruneTask> = Vec::new();
    collect_prunes(server, &stale, ArtifactKind::Server, &mut prunes);
    collect_prunes(installer, &stale, ArtifactKind::Installer, &mut prunes);
    assert(prune_views(Seq::<PruneTask>::empty()) =~= Seq::<PruneTaskView>::empty());
    let mut downloads: Vec<DownloadTask> = Vec::new();
    assert(download_views(downloads@) =~= Seq::<DownloadTaskView>::empty());
    let mut i: usize = 0;
    while i < keep.len()
        invariant
            i <= keep@.len(),
            download_views(downloads@) == downloads_for(
                keep@.take(i as int),
                names_of(server@),
                names_of(installer@),
            ),
        decreases keep@.len() - i,
    {
        let v = &keep[i];
        let link = v.get_link();
        let installer_link = v.get_installer_link();
        assert(keep@.take(i + 1).drop_last() =~= keep@.take(i as int));
        download_link(server, ArtifactKind::Server, link, &mut downloads);
        if *link != *installer_link {
            download_link(installer, ArtifactKind::Installer, installer_link, &mut downloads);
        }
        proof {
            let s = names_of(server@);
            let n = names_of(installer@);
            assert(downloads_for(keep@.take(i + 1), s, n) =~= downloads_for(
                keep@.take(i as int),
                s,
                n,
            ) + record_downloads(keep@[i as int]@, s, n));
        }
        i = i + 1;
    }
    assert(keep@.take(keep@.len() as int) =~= keep@);
    ChannelPlan { downloads, prunes }
}

/// The retention split covers every record exactly once and keeps its
/// order: the kept records followed by the stale ones are the catalog itself.
/// With a cap of zero, or one no smaller than the catalog, every record is
/// kept and none is stale; otherwise the first `cap` records are kept and
/// the rest are stale.
pub proof fn lemma_retention_partition(rs: Seq<Version>, cap: nat)
    ensures
        keep_of(rs, cap) + stale_of(rs, cap) == rs,
        keeps_all(rs.len(), cap) ==> keep_of(rs, cap) == rs && stale_of(rs, cap).len() == 0,
        !keeps_all(rs.len(), cap) ==> {
            &&& keep_of(rs, cap) == rs.take(cap as int)
            &&& keep_of(rs, cap).len() == cap
            &&& stale_of(rs, cap) == rs.skip(cap as int)
        },
{
    if keeps_all(rs.len(), cap) {
        assert(rs + Seq::<Version>::empty() =~= rs);
    } else {
        assert(rs.take(cap as int) + rs.skip(cap as int) =~= rs);
    }
}

/// A record whose server and installer artifacts share one URL gives at most
/// one fetch, into the server directory: one when that directory lacks the
/// file, none when it has it.
pub proof fn lemma_shared_url_single_download(
    v: VersionView,
    server: Seq<Seq<char>>,
    installer: Seq<Seq<char>>,
)
    requires
        v.link == v.installer_link,
    ensures
        record_downloads(v, server, installer).len() == if server.contains(file_name_of(v.link)) {
            0int
        } else {
            1int
        },
        forall|k: int|
            0 <= k < record_downloads(v, server, installer).len() ==> record_downloads(
                v,
                server,
                installer,
            )[k].kind == ArtifactKind::Server,
{
    assert(record_downloads(v, server, installer) =~= link_download(
        server,
        ArtifactKind::Server,
        v.link,
    ));
}

/// The directory listing of `kind`.
pub open spec fn dir_of(kind: ArtifactKind, server: Seq<Seq<char>>, installer: Seq<Seq<char>>) -> Seq<
    Seq<char>,
> {
    match kind {
        ArtifactKind::Server => server,
        ArtifactKind::Installer => installer,
    }
}

/// Whether a file of the directory of `kind` outlives the plan's removals.
pub open spec fn survives(plan: ChannelPlanView, kind: ArtifactKind) -> spec_fn(Seq<char>) -> bool {
    |n: Seq<char>| !plan.prunes.contains(PruneTaskView { kind, file_name: n })
}

/// Whether a fetch goes into the directory of `kind`.
pub open spec fn fetches_into(kind: ArtifactKind) -> spec_fn(DownloadTaskView) -> bool {
    |t: DownloadTaskView| t.kind == kind
}

/// The names a directory holds once a plan has run: the files it had, less
/// those the plan removed from it, then those the plan fetched into it.
pub open spec fn names_after(names: Seq<Seq<char>>, plan: ChannelPlanView, kind: ArtifactKind) -> Seq<
    Seq<char>,
> {
    names.filter(survives(plan, kind)) + plan.downloads.filter(fetches_into(kind)).map_values(
        |t: DownloadTaskView| t.file_name,
    )
}

/// Whether no kept record stores an artifact under the name that a stale
/// record uses for its artifact of the same kind.
pub open spec fn names_disjoint(rs: Seq<Version>, cap: nat) -> bool {
    forall|a: int, b: int, kind: ArtifactKind|
        0 <= a < keep_of(rs, cap).len() && 0 <= b < stale_of(rs, cap).len() ==> #[trigger] artifact_name(
            keep_of(rs, cap)[a]@,
            kind,
        ) != #[trigger] artifact_name(stale_of(rs, cap)[b]@, kind)
}

proof fn lemma_concat_contains<A>(a: Seq<A>, b: Seq<A>, x: A)
    ensures
        (a + b).contains(x) <==> a.contains(x) || b.contains(x),
{
    if (a + b).contains(x) {
        let k = choose|k: int| 0 <= k < (a + b).len() && (a + b)[k] == x;
        if k < a.len() {
            assert(a[k] == x);
        } else {
            assert(b[k - a.len()] == x);
        }
    }
    if a.contains(x) {
        let k = choose|k: int| 0 <= k < a.len() && a[k] == x;
        assert((a + b)[k] == x);
    }
    if b.contains(x) {
        let k = choose|k: int| 0 <= k < b.len() && b[k] == x;
        assert((a + b)[a.len() + k] == x);
    }
}

proof fn lemma_prunes_are_stale(
    names: Seq<Seq<char>>,
    stale: Seq<Version>,
    kind: ArtifactKind,
    t: PruneTaskView,
)
    requires
        prunes_for(names, stale, kind).contains(t),
    ensures
        t.kind == kind,
        is_stale_name(stale, kind, t.file_name),
    decreases names.len(),
{
    let rest = prunes_for(names.drop_last(), stale, kind);
    let x = PruneTaskView { kind, file_name: names.last() };
    if is_stale_name(stale, kind, names.last()) && t == x {
    } else {
        if is_stale_name(stale, kind, names.last()) {
            lemma_concat_contains(rest, seq![x], t);
            assert(rest.push(x) == rest + seq![x]);
            if seq![x].contains(t) {
                assert(seq![x][0] == x);
            }
        }
        lemma_prunes_are_stale(names.drop_last(), stale, kind, t);
    }
}

proof fn lemma_stale_names_pruned(
    names: Seq<Seq<char>>,
    stale: Seq<Version>,
    kind: ArtifactKind,
    i: int,
)
    requires
        0 <= i < names.len(),
        is_stale_name(stale, kind, names[i]),
    ensures
        prunes_for(names, stale, kind).contains(PruneTaskView { kind, file_name: names[i] }),
    decreases names.len(),
{
    let rest = prunes_for(names.drop_last(), stale, kind);
    let x = PruneTaskView { kind, file_name: names[i] };
    if i == names.len() - 1 {
        assert(prunes_for(names, stale, kind)[rest.len() as int] == x);
    } else {
        assert(names.drop_last()[i] == names[i]);
        lemma_stale_names_pruned(names.drop_last(), stale, kind, i);
        let k = choose|k: int| 0 <= k < rest.len() && rest[k] == x;
        assert(prunes_for(names, stale, kind)[k] == x);
    }
}

proof fn lemma_no_stale_no_prunes(names: Seq<Seq<char>>, stale: Seq<Version>, kind: ArtifactKind)
    requires
        forall|i: int| 0 <= i < names.len() ==> !is_stale_name(stale, kind, #[trigger] names[i]),
    ensures
        prunes_for(names, stale, kind).len() == 0,
    decreases names.len(),
{
    if names.len() > 0 {
        assert forall|i: int| 0 <= i < names.drop_last().len() implies !is_stale_name(
            stale,
            kind,
            #[trigger] names.drop_last()[i],
        ) by {
            assert(names.drop_last()[i] == names[i]);
        }
        lemma_no_stale_no_prunes(names.drop_last(), stale, kind);
        assert(!is_stale_name(stale, kind, names[names.len() - 1]));
    }
}

proof fn lemma_download_origin(
    keep: Seq<Version>,
    server: Seq<Seq<char>>,
    installer: Seq<Seq<char>>,
    t: DownloadTaskView,
)
    requires
        downloads_for(keep, server, installer).contains(t),
    ensures
        exists|a: int| 0 <= a < keep.len() && t.file_name == artifact_name(keep[a]@, t.kind),
    decreases keep.len(),
{
    let rest = downloads_for(keep.drop_last(), server, installer);
    let v = keep.last()@;
    let last = record_downloads(v, server, installer);
    lemma_concat_contains(rest, last, t);
    if rest.contains(t) {
        lemma_download_origin(keep.drop_last(), server, installer, t);
        let a = choose|a: int|
            0 <= a < keep.drop_last().len() && t.file_name == artifact_name(
                keep.drop_last()[a]@,
                t.kind,
            );
        assert(keep.drop_last()[a] == keep[a]);
    } else {
        let ls = link_download(server, ArtifactKind::Server, v.link);
        let li = if v.link == v.installer_link {
            Seq::empty()
        } else {
            link_download(installer, ArtifactKind::Installer, v.installer_link)
        };
        lemma_concat_contains(ls, li, t);
        if ls.contains(t) {
            assert(ls[0] == t);
        } else {
            assert(li[0] == t);
        }
        assert(t.file_name == artifact_name(keep[keep.len() - 1]@, t.kind));
    }
}

proof fn lemma_missing_downloaded(
    keep: Seq<Version>,
    server: Seq<Seq<char>>,
    installer: Seq<Seq<char>>,
    kind: ArtifactKind,
    a: int,
)
    requires
        0 <= a < keep.len(),
        kind == ArtifactKind::Server || keep[a]@.link != keep[a]@.installer_link,
        !dir_of(kind, server, installer).contains(artifact_name(keep[a]@, kind)),
    ensures
        downloads_for(keep, server, installer).contains(
            DownloadTaskView {
                url: link_of(keep[a]@, kind),
                kind,
                file_name: artifact_name(keep[a]@, kind),
            },
        ),
    decreases keep.len(),
{
    let rest = downloads_for(keep.drop_last(), server, installer);
    let v = keep.last()@;
    let last = record_downloads(v, server, installer);
    let x = DownloadTaskView {
        url: link_of(keep[a]@, kind),
        kind,
        file_name: artifact_name(keep[a]@, kind),
    };
    if a == keep.len() - 1 {
        let ls = link_download(server, ArtifactKind::Server, v.link);
        let li = if v.link == v.installer_link {
            Seq::empty()
        } else {
            link_download(installer, ArtifactKind::Installer, v.installer_link)
        };
        if kind == ArtifactKind::Server {
            assert(ls[0] == x);
            lemma_concat_contains(ls, li, x);
        } else {
            assert(li[0] == x);
            lemma_concat_contains(ls, li, x);
        }
        lemma_concat_contains(rest, last, x);
    } else {
        assert(keep.drop_last()[a] == keep[a]);
        lemma_missing_downloaded(keep.drop_last(), server, installer, kind, a);
        lemma_concat_contains(rest, last, x);
    }
}

proof fn lemma_all_present_no_downloads(
    keep: Seq<Version>,
    server: Seq<Seq<char>>,
    installer: Seq<Seq<char>>,
)
    requires
        forall|a: int|
            0 <= a < keep.len() ==> {
                &&& server.contains(artifact_name(#[trigger] keep[a]@, ArtifactKind::Server))
                &&& keep[a]@.link != keep[a]@.installer_link ==> installer.contains(
                    artifact_name(keep[a]@, ArtifactKind::Installer),
                )
            },
    ensures
        downloads_for(keep, server, installer).len() == 0,
    decreases keep.len(),
{
    if keep.len() > 0 {
        assert forall|a: int| 0 <= a < keep.drop_last().len() implies {
            &&& server.contains(artifact_name(#[trigger] keep.drop_last()[a]@, ArtifactKind::Server))
            &&& keep.drop_last()[a]@.link != keep.drop_last()[a]@.installer_link
                ==> installer.contains(
                artifact_name(keep.drop_last()[a]@, ArtifactKind::Installer),
            )
        } by {
            assert(keep.drop_last()[a] == keep[a]);
        }
        lemma_all_present_no_downloads(keep.drop_last(), server, installer);
        let v = keep[keep.len() - 1]@;
        assert(server.contains(artifact_name(v, ArtifactKind::Server)));
    }
}

proof fn lemma_after_not_stale(
    rs: Seq<Version>,
    cap: nat,
    server: Seq<Seq<char>>,
    installer: Seq<Seq<char>>,
    kind: ArtifactKind,
    i: int,
)
    requires
        names_disjoint(rs, cap),
        0 <= i < names_after(
            dir_of(kind, server, installer),
            plan_of(rs, cap, server, installer),
            kind,
        ).len(),
    ensures
        !is_stale_name(
            stale_of(rs, cap),
            kind,
            names_after(dir_of(kind, server, installer), plan_of(rs, cap, server, installer), kind)[i],
        ),
{
    broadcast use Seq::lemma_filter_pred, Seq::lemma_filter_contains_rev;

    let p = plan_of(rs, cap, server, installer);
    let d = dir_of(kind, server, installer);
    let keep = keep_of(rs, cap);
    let stale = stale_of(rs, cap);
    let kept = d.filter(survives(p, kind));
    let fetched_tasks = p.downloads.filter(fetches_into(kind));
    let n = names_after(d, p, kind)[i];
    if is_stale_name(stale, kind, n) {
        if i < kept.len() {
            assert(n == kept[i]);
            assert(survives(p, kind)(kept[i]));
            assert(kept.contains(n));
            assert(d.contains(n));
            let j = choose|j: int| 0 <= j < d.len() && d[j] == n;
            lemma_stale_names_pruned(d, stale, kind, j);
            let x = PruneTaskView { kind, file_name: n };
            let ps = prunes_for(server, stale, ArtifactKind::Server);
            let pi = prunes_for(installer, stale, ArtifactKind::Installer);
            lemma_concat_contains(ps, pi, x);
        } else {
            let m = i - kept.len();
            let t = fetched_tasks[m];
            assert(n == t.file_name);
            assert(fetches_into(kind)(t));
            assert(fetched_tasks.contains(t));
            assert(p.downloads.contains(t));
            lemma_download_origin(keep, server, installer, t);
            let a = choose|a: int| 0 <= a < keep.len() && t.file_name == artifact_name(keep[a]@, t.kind);
            let b = choose|b: int| 0 <= b < stale.len() && artifact_name(stale[b]@, kind) == n;
            assert(artifact_name(keep[a]@, kind) != artifact_name(stale[b]@, kind));
        }
    }
}

proof fn lemma_kept_name_present(
    rs: Seq<Version>,
    cap: nat,
    server: Seq<Seq<char>>,
    installer: Seq<Seq<char>>,
    kind: ArtifactKind,
    a: int,
)
    requires
        names_disjoint(rs, cap),
        0 <= a < keep_of(rs, cap).len(),
        kind == ArtifactKind::Server || keep_of(rs, cap)[a]@.link != keep_of(rs, cap)[a]@.installer_link,
    ensures
        names_after(
            dir_of(kind, server, installer),
            plan_of(rs, cap, server, installer),
            kind,
        ).contains(artifact_name(keep_of(rs, cap)[a]@, kind)),
{
    broadcast use Seq::lemma_filter_contains;

    let p = plan_of(rs, cap, server, installer);
    let d = dir_of(kind, server, installer);
    let keep = keep_of(rs, cap);
    let stale = stale_of(rs, cap);
    let n = artifact_name(keep[a]@, kind);
    let kept = d.filter(survives(p, kind));
    let fetched_tasks = p.downloads.filter(fetches_into(kind));
    let fetched = fetched_tasks.map_values(|t: DownloadTaskView| t.file_name);
    if d.contains(n) {
        let j = choose|j: int| 0 <= j < d.len() && d[j] == n;
        let x = PruneTaskView { kind, file_name: n };
        let ps = prunes_for(server, stale, ArtifactKind::Server);
        let pi = prunes_for(installer, stale, ArtifactKind::Installer);
        lemma_concat_contains(ps, pi, x);
        if p.prunes.contains(x) {
            if ps.contains(x) {
                lemma_prunes_are_stale(server, stale, ArtifactKind::Server, x);
            } else {
                lemma_prunes_are_stale(installer, stale, ArtifactKind::Installer, x);
            }
            let b = choose|b: int| 0 <= b < stale.len() && artifact_name(stale[b]@, kind) == n;
            assert(artifact_name(keep[a]@, kind) != artifact_name(stale[b]@, kind));
        }
        assert(survives(p, kind)(d[j]));
        assert(kept.contains(n));
        lemma_concat_contains(kept, fetched, n);
    } else {
        lemma_missing_downloaded(keep, server, installer, kind, a);
        let t = DownloadTaskView { url: link_of(keep[a]@, kind), kind, file_name: n };
        let k = choose|k: int| 0 <= k < p.downloads.len() && p.downloads[k] == t;
        assert(fetches_into(kind)(p.downloads[k]));
        assert(fetched_tasks.contains(t));
        let m = choose|m: int| 0 <= m < fetched_tasks.len() && fetched_tasks[m] == t;
        assert(fetched[m] == n);
        lemma_concat_contains(kept, fetched, n);
    }
}

/// Running the engine a second time with no remote change finds nothing to
/// do: once a plan's removals and fetches have been carried out, planning
/// again on the resulting directories gives no fetch and no removal. This
/// holds when no kept record uses, for an artifact, the name that a stale
/// record uses for its artifact of the same kind.
pub proof fn lemma_second_run_is_idle(
    rs: Seq<Version>,
    cap: nat,
    server: Seq<Seq<char>>,
    installer: Seq<Seq<char>>,
)
    requires
        names_disjoint(rs, cap),
    ensures
        ({
            let first = plan_of(rs, cap, server, installer);
            let second = plan_of(
                rs,
                cap,
                names_after(server, first, ArtifactKind::Server),
                names_after(installer, first, ArtifactKind::Installer),
            );
            second.downloads.len() == 0 && second.prunes.len() == 0
        }),
{
    let first = plan_of(rs, cap, server, installer);
    let s2 = names_after(server, first, ArtifactKind::Server);
    let i2 = names_after(installer, first, ArtifactKind::Installer);
    let keep = keep_of(rs, cap);
    let stale = stale_of(rs, cap);
    assert forall|i: int| 0 <= i < s2.len() implies !is_stale_name(
        stale,
        ArtifactKind::Server,
        #[trigger] s2[i],
    ) by {
        lemma_after_not_stale(rs, cap, server, installer, ArtifactKind::Server, i);
    }
    assert forall|i: int| 0 <= i < i2.len() implies !is_stale_name(
        stale,
        ArtifactKind::Installer,
        #[trigger] i2[i],
    ) by {
        lemma_after_not_stale(rs, cap, server, installer, ArtifactKind::Installer, i);
    }
    lemma_no_stale_no_prunes(s2, stale, ArtifactKind::Server);
    lemma_no_stale_no_prunes(i2, stale, ArtifactKind::Installer);
    assert forall|a: int| 0 <= a < keep.len() implies {
        &&& s2.contains(artifact_name(#[trigger] keep[a]@, ArtifactKind::Server))
        &&& keep[a]@.link != keep[a]@.installer_link ==> i2.contains(
            artifact_name(keep[a]@, ArtifactKind::Installer),
        )
    } by {
        lemma_kept_name_present(rs, cap, server, installer, ArtifactKind::Server, a);
        if keep[a]@.link != keep[a]@.installer_link {
            lemma_kept_name_present(rs, cap, server, installer, ArtifactKind::Installer, a);
        }
    }
    lemma_all_present_no_downloads(keep, s2, i2);
}

} // verus!
