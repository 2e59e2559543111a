//! What the switcher takes from the compositor's layout when it opens.

use vstd::prelude::*;

use crate::coord::Coord;
use crate::ids::{MappedId, OutputId};
use crate::thumbnail::{models, text, Thumbnail, ThumbnailModel, TitleModel, TitleTexture};

verus! {

/// The workspaces of a layout at one moment.
#[derive(Debug)]
pub struct LayoutSnapshot {
    /// The active output, if there is any output.
    pub active_output: Option<OutputId>,
    pub workspaces: Vec<WorkspaceSnapshot>,
}

/// A workspace.
#[derive(Debug)]
pub struct WorkspaceSnapshot {
    /// The monitor that the workspace is on.
    pub monitor: Option<MonitorSnapshot>,
    /// The place of the workspace on that monitor.
    pub idx: usize,
    pub windows: Vec<WindowSnapshot>,
}

/// A monitor.
#[derive(Clone, Copy, Debug, PartialEq, Eq, Structural)]
pub struct MonitorSnapshot {
    pub output: OutputId,
    pub active_workspace_idx: usize,
}

/// A window.
#[derive(Debug)]
pub struct WindowSnapshot {
    pub id: MappedId,
    /// When the window last got the focus, in nanoseconds of the compositor's clock.
    pub focus_timestamp: Option<u128>,
    pub app_id: Option<String>,
}

impl WorkspaceSnapshot {
    /// The workspace is on the given output.
    pub open spec fn is_on(self, output: OutputId) -> bool {
        self.monitor matches Some(monitor) && monitor.output == output
    }

    /// The workspace is the one that its monitor shows.
    pub open spec fn is_active(self) -> bool {
        self.monitor matches Some(monitor) && monitor.active_workspace_idx == self.idx
    }

    /// The thumbnail of a window of this workspace, with `output` being the active one.
    pub open spec fn thumbnail(self, output: OutputId, window: WindowSnapshot) -> ThumbnailModel {
        ThumbnailModel {
            id: window.id,
            timestamp: window.focus_timestamp,
            on_current_workspace: self.is_on(output) && self.is_active(),
            on_current_output: self.is_on(output),
            app_id: text(window.app_id),
            open_animation: None,
            move_animation: None,
            title_texture: TitleModel {
                title: Seq::empty(),
                scale: Coord::spec_zero(),
                texture: None,
            },
        }
    }

    /// The thumbnails of all windows of this workspace.
    pub open spec fn thumbnails(self, output: OutputId) -> Seq<ThumbnailModel> {
        Seq::new(self.windows@.len(), |i: int| self.thumbnail(output, self.windows@[i]))
    }
}

/// The thumbnails of the windows of the first `n` workspaces, in the layout's order.
pub open spec fn thumbnails_of(
    workspaces: Seq<WorkspaceSnapshot>,
    output: OutputId,
    n: nat,
) -> Seq<ThumbnailModel>
    decreases n,
{
    if n == 0 {
        Seq::empty()
    } else {
        thumbnails_of(workspaces, output, (n - 1) as nat) + workspaces[n - 1].thumbnails(output)
    }
}

impl LayoutSnapshot {
    /// The thumbnails of all windows, in the layout's order; none without an active output.
    pub open spec fn thumbnails(self) -> Seq<ThumbnailModel> {
        match self.active_output {
            Some(output) => thumbnails_of(self.workspaces@, output, self.workspaces@.len()),
            None => Seq::empty(),
        }
    }

    /// With an active output every workspace has a monitor.
    pub open spec fn has_monitors(self) -> bool {
        self.active_output is Some ==> forall|i: int|
            0 <= i < self.workspaces@.len() ==> (#[trigger] self.workspaces@[i]).monitor is Some
    }
}

impl WorkspaceSnapshot {
    /// Appends the thumbnails of this workspace's windows.
    pub fn collect_thumbnails(&self, output: OutputId, thumbnails: &mut Vec<Thumbnail>)
        requires
            self.monitor is Some,
        ensures
            models(final(thumbnails)@) == models(
                old(thumbnails)@,
            ) + self.thumbnails(output),
    {
        let monitor: MonitorSnapshot = self.monitor.unwrap();
        let on_current_output: bool = monitor.output == output;
        let on_current_workspace: bool = on_current_output && monitor.active_workspace_idx
            == self.idx;
        let mut i: usize = 0;
        while i < self.windows.len()
            invariant
                i <= self.windows.len(),
                self.monitor == Some(monitor),
                on_current_output == self.is_on(output),
                on_current_workspace == (self.is_on(output) && self.is_active()),
                models(thumbnails@) == models(
                    old(thumbnails)@,
                ) + self.thumbnails(output).take(i as int),
            decreases self.windows.len() - i,
        {
            let window: &WindowSnapshot = &self.windows[i];
            let thumbnail = Thumbnail {
                id: window.id,
                timestamp: window.focus_timestamp,
                on_current_workspace,
                on_current_output,
                app_id: window.app_id.clone(),
                open_animation: None,
                move_animation: None,
                title_texture: TitleTexture::default(),
            };
            let ghost before = thumbnails@;
            thumbnails.push(thumbnail);
            i += 1;
            assert(thumbnail@ == self.thumbnail(output, *window));
            assert(models(thumbnails@) =~= models(before).push(
                thumbnail@,
            ));
            assert(self.thumbnails(output).take(i as int) =~= self.thumbnails(output).take(
                i - 1,
            ).push(thumbnail@));
        }
        assert(self.thumbnails(output).take(i as int) =~= self.thumbnails(output));
    }
}

/// How many windows the first `n` workspaces have.
pub open spec fn windows_before(workspaces: Seq<WorkspaceSnapshot>, n: nat) -> nat
    decreases n,
{
    if n == 0 {
        0
    } else {
        windows_before(workspaces, (n - 1) as nat) + workspaces[n - 1].windows@.len()
    }
}

/// Every window of every workspace is listed with its own id, timestamp and application, whichever
/// output its workspace is on, after the windows of earlier workspaces and the earlier ones of its
/// own. It counts as on the active output if its monitor's output is that one, and as on the active
/// workspace if moreover its workspace is the one that the monitor shows.
pub proof fn law_every_window_listed(layout: LayoutSnapshot, w: int, i: int)
    requires
        layout.active_output is Some,
        0 <= w < layout.workspaces@.len(),
        0 <= i < layout.workspaces@[w].windows@.len(),
    ensures
        ({
            let output = layout.active_output->0;
            let workspace = layout.workspaces@[w];
            let window = workspace.windows@[i];
            let k = windows_before(layout.workspaces@, w as nat) + i;
            let t = layout.thumbnails()[k];
            &&& 0 <= k < layout.thumbnails().len()
            &&& t.id == window.id
            &&& t.timestamp == window.focus_timestamp
            &&& t.app_id is Some <==> window.app_id is Some
            &&& window.app_id matches Some(app_id) ==> t.app_id == Some(app_id@)
            &&& workspace.monitor matches Some(monitor) ==> {
                &&& t.on_current_output <==> monitor.output == output
                &&& t.on_current_workspace <==> monitor.output == output
                    && monitor.active_workspace_idx == workspace.idx
            }
            &&& t.open_animation is None
            &&& t.move_animation is None
            &&& t.title_texture.texture is None
            &&& t.title_texture.title.len() == 0
            &&& t.title_texture.scale.key == Some(0i64)
        }),
{
    lemma_listed(
        layout.workspaces@,
        layout.active_output->0,
        layout.workspaces@.len(),
        w,
        i,
    );
}

/// No other windows are listed, and none at all without an active output.
pub proof fn law_only_windows_listed(layout: LayoutSnapshot)
    ensures
        layout.active_output is Some ==> layout.thumbnails().len() == windows_before(
            layout.workspaces@,
            layout.workspaces@.len(),
        ),
        layout.active_output is None ==> layout.thumbnails().len() == 0,
{
    if let Some(output) = layout.active_output {
        lemma_listed_len(layout.workspaces@, output, layout.workspaces@.len());
    }
}

proof fn lemma_listed_len(workspaces: Seq<WorkspaceSnapshot>, output: OutputId, n: nat)
    ensures
        thumbnails_of(workspaces, output, n).len() == windows_before(workspaces, n),
    decreases n,
{
    if n > 0 {
        lemma_listed_len(workspaces, output, (n - 1) as nat);
    }
}

proof fn lemma_listed(
    workspaces: Seq<WorkspaceSnapshot>,
    output: OutputId,
    n: nat,
    w: int,
    i: int,
)
    requires
        0 <= w < n <= workspaces.len(),
        0 <= i < workspaces[w].windows@.len(),
    ensures
        ({
            let k = windows_before(workspaces, w as nat) + i;
            &&& 0 <= k < thumbnails_of(workspaces, output, n).len()
            &&& thumbnails_of(workspaces, output, n)[k] == workspaces[w].thumbnail(
                output,
                workspaces[w].windows@[i],
            )
        }),
    decreases n,
{
    lemma_listed_len(workspaces, output, (n - 1) as nat);
    if w < n - 1 {
        lemma_listed(workspaces, output, (n - 1) as nat, w, i);
    }
}

} // verus!
