//! The monitoring session: owner of the buffers, inventories, selections and
//! dialog, the tick that refreshes them, and the command surface the input
//! layer drives.
//!
//! A tick is one synchronous pass: feed the host counters to the rate
//! estimators, push the smoothed values into the four host buffers, replace
//! the active tab's inventory from the fetched responses, record a composite
//! sample per container, and re-clamp the selection against the new list
//! length. It never partially applies: a failed fetch yields an empty list
//! and the selection is still clamped against whatever length resulted.
//!
//! Commands mutate the session synchronously; a lifecycle command returns an
//! [`ActionRequest`] that the caller dispatches to the engine without the
//! session awaiting the outcome.

use vstd::prelude::*;

use crate::dialog::{build_run_args, spec_run_args, CreateDialogState};
use crate::history::{capped_push, spec_history_of, HistoryAggregator, StatsSample};
use crate::inventory::{
    opt_text_view, refresh_containers, refresh_images, refresh_pods, parse_net_io,
    spec_parse_net_io, spec_refresh_containers, spec_refresh_images, spec_refresh_pods, Container,
    ContainerView, Image, ImageView, Pod, PodView,
};
use crate::rate::{rate_per_sec, CounterSample, RateEstimator};
use crate::ring::RingBuffer;
use crate::select::Selection;

verus! {

/// How many host samples each of the four host buffers holds.
pub const HOST_HISTORY_LEN: usize = 60;

/// Which dashboard tab is active.
#[derive(Clone, Copy, PartialEq, Eq, Structural, Debug)]
pub enum MonitorTab {
    System,
    Docker,
    Kubernetes,
}

/// Which container-engine list the engine tab displays.
#[derive(Clone, Copy, PartialEq, Eq, Structural, Debug)]
pub enum DockerView {
    Containers,
    Images,
}

/// A preset container the operator can launch with one key.
#[derive(Clone, Copy, PartialEq, Eq, Structural, Debug)]
pub enum PresetKind {
    Postgres,
    Redis,
    MongoDb,
    Grafana,
}

/// The last status line shown to the operator; the caller renders it to
/// text.
#[derive(Debug)]
pub enum StatusMessage {
    Idle,
    CreatingPreset(PresetKind),
    StartedContainer(String),
    StoppedContainer(String),
    RestartingContainer(String),
    DeletedContainer(String),
    DeletedImage(String),
    DeletedPod(String),
    ImageNameRequired,
    CreateSucceeded(String),
    CreateFailed(String),
}

/// A fire-and-forget lifecycle request for the caller to dispatch; the
/// session never observes its outcome.
#[derive(Debug)]
pub enum ActionRequest {
    StartContainer(String),
    StopContainer(String),
    RestartContainer(String),
    RemoveContainer(String),
    RemoveImage(String),
    RemovePod { name: String, namespace: String },
    CreatePreset(PresetKind),
}

/// What a lifecycle key asks of the focused item.
#[derive(Clone, Copy, PartialEq, Eq, Structural, Debug)]
pub enum ActionKind {
    Start,
    Stop,
    Restart,
    Remove,
    CreatePreset(PresetKind),
}

/// One reading of the host counters, taken at the top of a tick.
/// Percentages are in hundredths; the network counters are cumulative bytes;
/// the instant is monotonic microseconds.
#[derive(Clone, Copy, PartialEq, Eq, Structural, Debug)]
pub struct HostMetrics {
    pub cpu_centi_percent: u64,
    pub mem_total: u64,
    pub mem_used: u64,
    pub net_received: u64,
    pub net_transmitted: u64,
    pub now_micros: u64,
}

/// The inventory responses fetched for the active tab; a missing response
/// stands for a failed listing tool.
pub enum InventoryFetch {
    Skipped,
    Docker { ps: Option<String>, stats: Option<String>, images: Option<String> },
    Kubernetes { pods: Option<String> },
}

/// The fetch that belongs to the active tab: inventory responses exactly for
/// the inventory view being shown.
pub open spec fn fetch_matches(fetch: InventoryFetch, tab: MonitorTab) -> bool {
    match tab {
        MonitorTab::System => fetch is Skipped,
        MonitorTab::Docker => fetch is Docker,
        MonitorTab::Kubernetes => fetch is Kubernetes,
    }
}

/// View of an optional response.
pub open spec fn opt_view(o: Option<String>) -> Option<Seq<char>> {
    match o {
        Some(s) => Some(s@),
        None => None,
    }
}

/// Memory pressure in hundredths of a percent, zero when the total is
/// unknown.
pub open spec fn spec_mem_centi_percent(total: u64, used: u64) -> u64 {
    if total == 0 {
        0
    } else {
        let v = (used * 10000) / (total as int);
        if v > u64::MAX {
            u64::MAX
        } else {
            v as u64
        }
    }
}

/// Hundredths rounded to whole units.
pub open spec fn round_centi(v: u64) -> u64 {
    ((v / 100) + if v % 100 >= 50 {
        1int
    } else {
        0int
    }) as u64
}

/// Bytes per second rounded to kibibytes per second.
pub open spec fn bytes_to_kb_rounded(v: u64) -> u64 {
    ((v / 1024) + if v % 1024 >= 512 {
        1int
    } else {
        0int
    }) as u64
}

/// The rate a counter stream reports for the current sample.
pub open spec fn spec_stream_rate(est: RateEstimator, value: u64, now_micros: u64) -> int {
    match est.spec_prev() {
        Some(p) => rate_per_sec(p, CounterSample { value, time_micros: now_micros }),
        None => 0,
    }
}

/// The composite sample recorded for one container on one tick.
pub open spec fn container_sample(c: ContainerView) -> StatsSample {
    StatsSample {
        cpu_centi_percent: c.cpu_centi_percent,
        mem_centi_percent: c.mem_centi_percent,
        net_rx_centi_kb: spec_parse_net_io(c.net_io).0,
        net_tx_centi_kb: spec_parse_net_io(c.net_io).1,
    }
}

/// The history map after recording one tick's sample for every container,
/// in inventory order.
pub open spec fn spec_record_containers(
    m: Map<Seq<char>, Seq<StatsSample>>,
    cs: Seq<ContainerView>,
) -> Map<Seq<char>, Seq<StatsSample>>
    decreases cs.len(),
{
    if cs.len() == 0 {
        m
    } else {
        let m2 = spec_record_containers(m, cs.drop_last());
        let c = cs.last();
        m2.insert(c.id, capped_push(spec_history_of(m2, c.id), container_sample(c)))
    }
}

/// The top-level owner of the dashboard's state.
pub struct MonitoringSession {
    pub current_tab: MonitorTab,
    pub docker_view: DockerView,
    pub containers: Vec<Container>,
    pub images: Vec<Image>,
    pub pods: Vec<Pod>,
    pub docker_sel: Selection,
    pub k8s_sel: Selection,
    pub cpu_history: RingBuffer<u64>,
    pub ram_history: RingBuffer<u64>,
    pub recv_history: RingBuffer<u64>,
    pub send_history: RingBuffer<u64>,
    pub recv_rate: RateEstimator,
    pub send_rate: RateEstimator,
    pub recv_rate_bps: u64,
    pub send_rate_bps: u64,
    pub histories: HistoryAggregator,
    pub message: StatusMessage,
    pub dialog_open: bool,
    pub dialog: CreateDialogState,
}

/// The message a preset launch shows optimistically.
pub open spec fn preset_message(p: PresetKind) -> StatusMessage {
    StatusMessage::CreatingPreset(p)
}

/// The container the engine tab has focused, when the containers list is
/// shown and the focus is in range.
pub open spec fn selected_container(s: MonitoringSession) -> Option<ContainerView> {
    match s.docker_sel {
        Selection::Focused(i) => if (i as nat) < s.containers@.len() {
            Some(s.containers.deep_view()[i as int])
        } else {
            None
        },
        Selection::Empty => None,
    }
}

/// The image the engine tab has focused, if in range.
pub open spec fn selected_image(s: MonitoringSession) -> Option<ImageView> {
    match s.docker_sel {
        Selection::Focused(i) => if (i as nat) < s.images@.len() {
            Some(s.images.deep_view()[i as int])
        } else {
            None
        },
        Selection::Empty => None,
    }
}

/// The pod the cluster tab has focused, if in range.
pub open spec fn selected_pod(s: MonitoringSession) -> Option<PodView> {
    match s.k8s_sel {
        Selection::Focused(i) => if (i as nat) < s.pods@.len() {
            Some(s.pods.deep_view()[i as int])
        } else {
            None
        },
        Selection::Empty => None,
    }
}

/// `t` is `s` with at most the status message changed.
pub open spec fn same_but_message(s: MonitoringSession, t: MonitoringSession) -> bool {
    t == (MonitoringSession { message: t.message, ..s })
}

/// What invoking a lifecycle action does: on an applicable tab with a
/// focused item it returns the request for that item and shows the matching
/// optimistic message; anywhere else it changes nothing and returns no
/// request. Success of the dispatched action is never observed.
pub open spec fn invoke_outcome(
    s: MonitoringSession,
    kind: ActionKind,
    t: MonitoringSession,
    r: Option<ActionRequest>,
) -> bool {
    match kind {
        ActionKind::CreatePreset(p) => if s.current_tab is Docker {
            &&& same_but_message(s, t)
            &&& t.message == preset_message(p)
            &&& r == Some(ActionRequest::CreatePreset(p))
        } else {
            t == s && r is None
        },
        ActionKind::Start => if s.current_tab is Docker && s.docker_view is Containers {
            match selected_container(s) {
                Some(c) => {
                    &&& same_but_message(s, t)
                    &&& (t.message matches StatusMessage::StartedContainer(n) && n@ == c.name)
                    &&& (r matches Some(ActionRequest::StartContainer(id)) && id@ == c.id)
                },
                None => t == s && r is None,
            }
        } else {
            t == s && r is None
        },
        ActionKind::Stop => if s.current_tab is Docker && s.docker_view is Containers {
            match selected_container(s) {
                Some(c) => {
                    &&& same_but_message(s, t)
                    &&& (t.message matches StatusMessage::StoppedContainer(n) && n@ == c.name)
                    &&& (r matches Some(ActionRequest::StopContainer(id)) && id@ == c.id)
                },
                None => t == s && r is None,
            }
        } else {
            t == s && r is None
        },
        ActionKind::Restart => if s.current_tab is Docker && s.docker_view is Containers {
            match selected_container(s) {
                Some(c) => {
                    &&& same_but_message(s, t)
                    &&& (t.message matches StatusMessage::RestartingContainer(n) && n@ == c.name)
                    &&& (r matches Some(ActionRequest::RestartContainer(id)) && id@ == c.id)
                },
                None => t == s && r is None,
            }
        } else {
            t == s && r is None
        },
        ActionKind::Remove => if s.current_tab is Docker && s.docker_view is Containers {
            match selected_container(s) {
                Some(c) => {
                    &&& same_but_message(s, t)
                    &&& (t.message matches StatusMessage::DeletedContainer(n) && n@ == c.name)
                    &&& (r matches Some(ActionRequest::RemoveContainer(id)) && id@ == c.id)
                },
                None => t == s && r is None,
            }
        } else if s.current_tab is Docker && s.docker_view is Images {
            match selected_image(s) {
                Some(im) => {
                    &&& same_but_message(s, t)
                    &&& (t.message matches StatusMessage::DeletedImage(n) && n@ == im.repository)
                    &&& (r matches Some(ActionRequest::RemoveImage(id)) && id@ == im.image_id)
                },
                None => t == s && r is None,
            }
        } else if s.current_tab is Kubernetes {
            match selected_pod(s) {
                Some(p) => {
                    &&& same_but_message(s, t)
                    &&& (t.message matches StatusMessage::DeletedPod(n) && n@ == p.name)
                    &&& (r matches Some(ActionRequest::RemovePod { name, namespace })
                        && name@ == p.name && namespace@ == p.namespace)
                },
                None => t == s && r is None,
            }
        } else {
            t == s && r is None
        },
    }
}

/// A submitted dialog turned into the engine's run request.
pub struct RunRequest {
    pub args: Vec<String>,
    pub image: String,
}

impl MonitoringSession {
    /// The buffers hold their fixed depth, the histories their invariant and
    /// the dialog its focus range.
    pub open spec fn wf(self) -> bool {
        &&& self.cpu_history.wf() && self.cpu_history@.len() == HOST_HISTORY_LEN as nat
        &&& self.ram_history.wf() && self.ram_history@.len() == HOST_HISTORY_LEN as nat
        &&& self.recv_history.wf() && self.recv_history@.len() == HOST_HISTORY_LEN as nat
        &&& self.send_history.wf() && self.send_history@.len() == HOST_HISTORY_LEN as nat
        &&& self.histories.wf()
        &&& self.dialog.wf()
    }

    /// Length of the engine tab's currently displayed list.
    pub open spec fn docker_list_len(self) -> nat {
        match self.docker_view {
            DockerView::Containers => self.containers@.len(),
            DockerView::Images => self.images@.len(),
        }
    }

    /// Executable twin of [`Self::docker_list_len`].
    pub fn current_docker_len(&self) -> (n: usize)
        ensures
            n == self.docker_list_len(),
    {
        match self.docker_view {
            DockerView::Containers => self.containers.len(),
            DockerView::Images => self.images.len(),
        }
    }

    /// A fresh session: system tab, empty inventories, zero-filled host
    /// buffers, no previous counter samples, no histories, both selections
    /// on the first row of their eventually non-empty lists.
    pub fn new() -> (r: Self)
        ensures
            r.wf(),
            r.current_tab is System,
            r.docker_view is Containers,
            r.containers@.len() == 0,
            r.images@.len() == 0,
            r.pods@.len() == 0,
            r.docker_sel == Selection::Focused(0usize),
            r.k8s_sel == Selection::Focused(0usize),
            r.cpu_history@ == Seq::new(HOST_HISTORY_LEN as nat, |i: int| 0u64),
            r.ram_history@ == Seq::new(HOST_HISTORY_LEN as nat, |i: int| 0u64),
            r.recv_history@ == Seq::new(HOST_HISTORY_LEN as nat, |i: int| 0u64),
            r.send_history@ == Seq::new(HOST_HISTORY_LEN as nat, |i: int| 0u64),
            r.recv_rate.spec_prev() is None,
            r.send_rate.spec_prev() is None,
            r.recv_rate_bps == 0,
            r.send_rate_bps == 0,
            r.histories@ == Map::<Seq<char>, Seq<StatsSample>>::empty(),
            r.message is Idle,
            r.dialog_open == false,
            r.dialog.is_fresh(),
    {
        MonitoringSession {
            current_tab: MonitorTab::System,
            docker_view: DockerView::Containers,
            containers: Vec::new(),
            images: Vec::new(),
            pods: Vec::new(),
            docker_sel: Selection::new(),
            k8s_sel: Selection::new(),
            cpu_history: RingBuffer::new(HOST_HISTORY_LEN, 0),
            ram_history: RingBuffer::new(HOST_HISTORY_LEN, 0),
            recv_history: RingBuffer::new(HOST_HISTORY_LEN, 0),
            send_history: RingBuffer::new(HOST_HISTORY_LEN, 0),
            recv_rate: RateEstimator::new(),
            send_rate: RateEstimator::new(),
            recv_rate_bps: 0,
            send_rate_bps: 0,
            histories: HistoryAggregator::new(),
            message: StatusMessage::Idle,
            dialog_open: false,
            dialog: CreateDialogState::new(),
        }
    }

    /// One synchronous tick. Counter refresh precedes rate computation, and
    /// inventory refresh precedes selection re-clamping; the fetch must
    /// belong to the active tab.
    pub fn tick(&mut self, metrics: HostMetrics, fetch: InventoryFetch)
        requires
            old(self).wf(),
            fetch_matches(fetch, old(self).current_tab),
        ensures
            final(self).wf(),
            final(self).current_tab == old(self).current_tab,
            final(self).docker_view == old(self).docker_view,
            final(self).message == old(self).message,
            final(self).dialog_open == old(self).dialog_open,
            final(self).dialog == old(self).dialog,
            final(self).recv_rate.spec_prev() == Some(
                CounterSample { value: metrics.net_received, time_micros: metrics.now_micros },
            ),
            final(self).send_rate.spec_prev() == Some(
                CounterSample { value: metrics.net_transmitted, time_micros: metrics.now_micros },
            ),
            final(self).recv_rate_bps == spec_stream_rate(
                old(self).recv_rate,
                metrics.net_received,
                metrics.now_micros,
            ),
            final(self).send_rate_bps == spec_stream_rate(
                old(self).send_rate,
                metrics.net_transmitted,
                metrics.now_micros,
            ),
            final(self).cpu_history@ == old(self).cpu_history@.subrange(
                1,
                old(self).cpu_history@.len() as int,
            ).push(round_centi(metrics.cpu_centi_percent)),
            final(self).ram_history@ == old(self).ram_history@.subrange(
                1,
                old(self).ram_history@.len() as int,
            ).push(spec_mem_centi_percent(metrics.mem_total, metrics.mem_used) / 100),
            final(self).recv_history@ == old(self).recv_history@.subrange(
                1,
                old(self).recv_history@.len() as int,
            ).push(bytes_to_kb_rounded(final(self).recv_rate_bps)),
            final(self).send_history@ == old(self).send_history@.subrange(
                1,
                old(self).send_history@.len() as int,
            ).push(bytes_to_kb_rounded(final(self).send_rate_bps)),
            match fetch {
                InventoryFetch::Skipped => {
                    &&& final(self).containers == old(self).containers
                    &&& final(self).images == old(self).images
                    &&& final(self).pods == old(self).pods
                    &&& final(self).histories@ == old(self).histories@
                    &&& final(self).docker_sel == old(self).docker_sel
                    &&& final(self).k8s_sel == old(self).k8s_sel
                },
                InventoryFetch::Docker { ps, stats, images } => {
                    &&& final(self).containers.deep_view() == spec_refresh_containers(
                        opt_view(ps),
                        opt_view(stats),
                    )
                    &&& final(self).images.deep_view() == spec_refresh_images(opt_view(images))
                    &&& final(self).pods == old(self).pods
                    &&& final(self).histories@ == spec_record_containers(
                        old(self).histories@,
                        spec_refresh_containers(opt_view(ps), opt_view(stats)),
                    )
                    &&& final(self).docker_sel == old(self).docker_sel.spec_on_refresh(
                        final(self).docker_list_len(),
                    )
                    &&& final(self).k8s_sel == old(self).k8s_sel
                },
                InventoryFetch::Kubernetes { pods } => {
                    &&& final(self).containers == old(self).containers
                    &&& final(self).images == old(self).images
                    &&& final(self).pods.deep_view() == spec_refresh_pods(opt_view(pods))
                    &&& final(self).histories@ == old(self).histories@
                    &&& final(self).docker_sel == old(self).docker_sel
                    &&& final(self).k8s_sel == old(self).k8s_sel.spec_on_refresh(
                        final(self).pods@.len(),
                    )
                },
            },
    {
        let recv_bps = self.recv_rate.update(metrics.net_received, metrics.now_micros);
        let send_bps = self.send_rate.update(metrics.net_transmitted, metrics.now_micros);
        self.recv_rate_bps = recv_bps;
        self.send_rate_bps = send_bps;

        let cpu_units = metrics.cpu_centi_percent / 100 + if metrics.cpu_centi_percent % 100 >= 50 {
            1
        } else {
            0
        };
        self.cpu_history.push(cpu_units);
        let mem_centi = if metrics.mem_total == 0 {
            0
        } else {
            let w: u128 = (metrics.mem_used as u128) * 10000 / (metrics.mem_total as u128);
            if w > u64::MAX as u128 {
                u64::MAX
            } else {
                w as u64
            }
        };
        self.ram_history.push(mem_centi / 100);
        let recv_kb = recv_bps / 1024 + if recv_bps % 1024 >= 512 {
            1
        } else {
            0
        };
        self.recv_history.push(recv_kb);
        let send_kb = send_bps / 1024 + if send_bps % 1024 >= 512 {
            1
        } else {
            0
        };
        self.send_history.push(send_kb);

        match fetch {
            InventoryFetch::Skipped => {},
            InventoryFetch::Docker { ps, stats, images } => {
                let ps_ref: Option<&str> = match &ps {
                    Some(s) => Some(s.as_str()),
                    None => None,
                };
                let stats_ref: Option<&str> = match &stats {
                    Some(s) => Some(s.as_str()),
                    None => None,
                };
                let images_ref: Option<&str> = match &images {
                    Some(s) => Some(s.as_str()),
                    None => None,
                };
                proof {
                    assert(opt_text_view(ps_ref) == opt_view(ps));
                    assert(opt_text_view(stats_ref) == opt_view(stats));
                    assert(opt_text_view(images_ref) == opt_view(images));
                }
                let new_containers = refresh_containers(ps_ref, stats_ref);
                let new_images = refresh_images(images_ref);
                self.containers = new_containers;
                self.images = new_images;

                let ghost cv = self.containers.deep_view();
                let ghost base_map = self.histories@;
                let ghost pre_loop = *self;
                let n = self.containers.len();
                let mut i: usize = 0;
                proof {
                    assert(cv.take(0) =~= Seq::<ContainerView>::empty());
                }
                while i < n
                    invariant
                        i <= n,
                        n == self.containers@.len(),
                        *self == (MonitoringSession { histories: self.histories, ..pre_loop }),
                        cv == self.containers.deep_view(),
                        self.histories.wf(),
                        self.histories@ == spec_record_containers(base_map, cv.take(i as int)),
                    decreases n - i,
                {
                    let cid = self.containers[i].id.clone();
                    let net = parse_net_io(self.containers[i].net_io.as_str());
                    let sample = StatsSample {
                        cpu_centi_percent: self.containers[i].cpu_centi_percent,
                        mem_centi_percent: self.containers[i].mem_centi_percent,
                        net_rx_centi_kb: net.0,
                        net_tx_centi_kb: net.1,
                    };
                    proof {
                        assert(cid@ == cv[i as int].id);
                        assert(sample == container_sample(cv[i as int]));
                    }
                    self.histories.record(cid.as_str(), sample);
                    proof {
                        assert(cv.take(i + 1).drop_last() =~= cv.take(i as int));
                        assert(cv.take(i + 1).last() == cv[i as int]);
                        assert(self.histories@ == spec_record_containers(base_map, cv.take(i + 1)));
                    }
                    i = i + 1;
                }
                proof {
                    assert(cv.take(n as int) =~= cv);
                }
                let len = self.current_docker_len();
                self.docker_sel.on_refresh(len);
            },
            InventoryFetch::Kubernetes { pods } => {
                let pods_ref: Option<&str> = match &pods {
                    Some(s) => Some(s.as_str()),
                    None => None,
                };
                proof {
                    assert(opt_text_view(pods_ref) == opt_view(pods));
                }
                self.pods = refresh_pods(pods_ref);
                let len = self.pods.len();
                self.k8s_sel.on_refresh(len);
            },
        }
    }

    /// Moves the active inventory view's focus to the next row, wrapping.
    pub fn next_item(&mut self)
        ensures
            match old(self).current_tab {
                MonitorTab::Docker => *final(self) == (MonitoringSession {
                    docker_sel: old(self).docker_sel.spec_next(old(self).docker_list_len()),
                    ..*old(self)
                }),
                MonitorTab::Kubernetes => *final(self) == (MonitoringSession {
                    k8s_sel: old(self).k8s_sel.spec_next(old(self).pods@.len()),
                    ..*old(self)
                }),
                MonitorTab::System => *final(self) == *old(self),
            },
    {
        match self.current_tab {
            MonitorTab::Docker => {
                let len = self.current_docker_len();
                self.docker_sel.next(len);
            },
            MonitorTab::Kubernetes => {
                let len = self.pods.len();
                self.k8s_sel.next(len);
            },
            MonitorTab::System => {},
        }
    }

    /// Moves the active inventory view's focus to the previous row,
    /// wrapping.
    pub fn previous_item(&mut self)
        ensures
            match old(self).current_tab {
                MonitorTab::Docker => *final(self) == (MonitoringSession {
                    docker_sel: old(self).docker_sel.spec_previous(old(self).docker_list_len()),
                    ..*old(self)
                }),
                MonitorTab::Kubernetes => *final(self) == (MonitoringSession {
                    k8s_sel: old(self).k8s_sel.spec_previous(old(self).pods@.len()),
                    ..*old(self)
                }),
                MonitorTab::System => *final(self) == *old(self),
            },
    {
        match self.current_tab {
            MonitorTab::Docker => {
                let len = self.current_docker_len();
                self.docker_sel.previous(len);
            },
            MonitorTab::Kubernetes => {
                let len = self.pods.len();
                self.k8s_sel.previous(len);
            },
            MonitorTab::System => {},
        }
    }

    /// On the engine tab, toggles between the containers and images lists
    /// and resets the focus for the newly shown list: its first row when it
    /// has one, empty otherwise.
    pub fn switch_view(&mut self)
        ensures
            old(self).current_tab is Docker ==> {
                &&& final(self).docker_view == (match old(self).docker_view {
                    DockerView::Containers => DockerView::Images,
                    DockerView::Images => DockerView::Containers,
                })
                &&& final(self).docker_sel == (if final(self).docker_list_len() == 0 {
                    Selection::Empty
                } else {
                    Selection::Focused(0usize)
                })
                &&& *final(self) == (MonitoringSession {
                    docker_view: final(self).docker_view,
                    docker_sel: final(self).docker_sel,
                    ..*old(self)
                })
            },
            !(old(self).current_tab is Docker) ==> *final(self) == *old(self),
    {
        if matches!(self.current_tab, MonitorTab::Docker) {
            self.docker_view = match self.docker_view {
                DockerView::Containers => DockerView::Images,
                DockerView::Images => DockerView::Containers,
            };
            let len = self.current_docker_len();
            self.docker_sel.switch_view(len);
        }
    }

    /// Shows the given tab; each tab keeps its own selection.
    pub fn switch_tab(&mut self, tab: MonitorTab)
        ensures
            *final(self) == (MonitoringSession { current_tab: tab, ..*old(self) }),
    {
        self.current_tab = tab;
    }

    /// On the engine tab, opens the create dialog with fresh fields.
    pub fn open_create_dialog(&mut self)
        ensures
            old(self).current_tab is Docker ==> final(self).dialog.is_fresh() && *final(self)
                == (MonitoringSession {
                dialog_open: true,
                dialog: final(self).dialog,
                ..*old(self)
            }),
            !(old(self).current_tab is Docker) ==> *final(self) == *old(self),
    {
        if matches!(self.current_tab, MonitorTab::Docker) {
            self.dialog_open = true;
            self.dialog = CreateDialogState::new();
        }
    }

    /// While the dialog is open, moves its focus to the next field.
    pub fn dialog_focus_next(&mut self)
        requires
            old(self).wf(),
        ensures
            final(self).wf(),
            old(self).dialog_open ==> *final(self) == (MonitoringSession {
                dialog: (CreateDialogState {
                    selected_field: ((old(self).dialog.selected_field + 1) % 6) as usize,
                    ..old(self).dialog
                }),
                ..*old(self)
            }),
            !old(self).dialog_open ==> *final(self) == *old(self),
    {
        if self.dialog_open {
            self.dialog.focus_next();
        }
    }

    /// While the dialog is open, moves its focus to the previous field.
    pub fn dialog_focus_previous(&mut self)
        requires
            old(self).wf(),
        ensures
            final(self).wf(),
            old(self).dialog_open ==> *final(self) == (MonitoringSession {
                dialog: (CreateDialogState {
                    selected_field: (if old(self).dialog.selected_field == 0 {
                        5int
                    } else {
                        old(self).dialog.selected_field - 1
                    }) as usize,
                    ..old(self).dialog
                }),
                ..*old(self)
            }),
            !old(self).dialog_open ==> *final(self) == *old(self),
    {
        if self.dialog_open {
            self.dialog.focus_previous();
        }
    }

    /// While the dialog is open, appends `c` to its focused field.
    pub fn dialog_type_char(&mut self, c: char)
        ensures
            old(self).dialog_open ==> {
                &&& *final(self) == (MonitoringSession { dialog: final(self).dialog, ..*old(self) })
                &&& final(self).dialog == old(self).dialog.with_field_value(
                    old(self).dialog.current_index(),
                    final(self).dialog.field_value(old(self).dialog.current_index()),
                )
                &&& final(self).dialog.field_value(old(self).dialog.current_index())@ == old(
                    self,
                ).dialog.field_value(old(self).dialog.current_index())@.push(c)
            },
            !old(self).dialog_open ==> *final(self) == *old(self),
    {
        if self.dialog_open {
            self.dialog.type_char(c);
        }
    }

    /// While the dialog is open, removes the last character of its focused
    /// field.
    pub fn dialog_backspace(&mut self)
        ensures
            old(self).dialog_open ==> {
                &&& *final(self) == (MonitoringSession { dialog: final(self).dialog, ..*old(self) })
                &&& final(self).dialog == old(self).dialog.with_field_value(
                    old(self).dialog.current_index(),
                    final(self).dialog.field_value(old(self).dialog.current_index()),
                )
                &&& ({
                    let before = old(self).dialog.field_value(old(self).dialog.current_index())@;
                    let after = final(self).dialog.field_value(old(self).dialog.current_index())@;
                    if before.len() == 0 {
                        after == before
                    } else {
                        after == before.drop_last()
                    }
                })
            },
            !old(self).dialog_open ==> *final(self) == *old(self),
    {
        if self.dialog_open {
            self.dialog.backspace();
        }
    }

    /// Discards the dialog: closed, fields reset.
    pub fn dialog_cancel(&mut self)
        ensures
            old(self).dialog_open ==> final(self).dialog.is_fresh() && *final(self)
                == (MonitoringSession {
                dialog_open: false,
                dialog: final(self).dialog,
                ..*old(self)
            }),
            !old(self).dialog_open ==> *final(self) == *old(self),
    {
        if self.dialog_open {
            self.dialog_open = false;
            self.dialog = CreateDialogState::new();
        }
    }

    /// Submits the dialog. The dialog closes and resets either way; with an
    /// empty image name the one validation fails and only the status message
    /// reports it, otherwise the run request for the described container is
    /// returned for the caller to execute and report on.
    pub fn dialog_submit(&mut self) -> (r: Option<RunRequest>)
        ensures
            !old(self).dialog_open ==> *final(self) == *old(self) && r is None,
            old(self).dialog_open ==> {
                &&& final(self).dialog_open == false
                &&& final(self).dialog.is_fresh()
                &&& *final(self) == (MonitoringSession {
                    dialog_open: false,
                    dialog: final(self).dialog,
                    message: final(self).message,
                    ..*old(self)
                })
                &&& (old(self).dialog.image_name@.len() == 0 ==> r is None && final(self).message
                    is ImageNameRequired)
                &&& (old(self).dialog.image_name@.len() > 0 ==> final(self).message == old(
                    self,
                ).message && (r matches Some(rr) && rr.args.deep_view() == spec_run_args(
                    old(self).dialog,
                ) && rr.image@ == old(self).dialog.image_name@))
            },
    {
        if !self.dialog_open {
            return None;
        }
        let args = build_run_args(&self.dialog);
        let image = self.dialog.image_name.clone();
        self.dialog_open = false;
        self.dialog = CreateDialogState::new();
        match args {
            None => {
                self.message = StatusMessage::ImageNameRequired;
                None
            },
            Some(args) => Some(RunRequest { args, image }),
        }
    }

    /// Records what came of executing a submitted run request: the image
    /// name on success, the engine's error text on failure.
    pub fn report_create_result(&mut self, success: bool, detail: String)
        ensures
            *final(self) == (MonitoringSession { message: final(self).message, ..*old(self) }),
            success ==> final(self).message == StatusMessage::CreateSucceeded(detail),
            !success ==> final(self).message == StatusMessage::CreateFailed(detail),
    {
        self.message = if success {
            StatusMessage::CreateSucceeded(detail)
        } else {
            StatusMessage::CreateFailed(detail)
        };
    }

    /// Invokes a lifecycle action against the focused item; see
    /// [`invoke_outcome`] for exactly what is returned and shown when.
    pub fn invoke_action(&mut self, kind: ActionKind) -> (r: Option<ActionRequest>)
        ensures
            invoke_outcome(*old(self), kind, *final(self), r),
    {
        match kind {
            ActionKind::CreatePreset(p) => {
                if matches!(self.current_tab, MonitorTab::Docker) {
                    self.message = StatusMessage::CreatingPreset(p);
                    Some(ActionRequest::CreatePreset(p))
                } else {
                    None
                }
            },
            ActionKind::Start => {
                if matches!(self.current_tab, MonitorTab::Docker) && matches!(
                    self.docker_view,
                    DockerView::Containers,
                ) {
                    match self.docker_sel.selected() {
                        Some(i) => if i < self.containers.len() {
                            let id = self.containers[i].id.clone();
                            let name = self.containers[i].name.clone();
                            self.message = StatusMessage::StartedContainer(name);
                            Some(ActionRequest::StartContainer(id))
                        } else {
                            None
                        },
                        None => None,
                    }
                } else {
                    None
                }
            },
            ActionKind::Stop => {
                if matches!(self.current_tab, MonitorTab::Docker) && matches!(
                    self.docker_view,
                    DockerView::Containers,
                ) {
                    match self.docker_sel.selected() {
                        Some(i) => if i < self.containers.len() {
                            let id = self.containers[i].id.clone();
                            let name = self.containers[i].name.clone();
                            self.message = StatusMessage::StoppedContainer(name);
                            Some(ActionRequest::StopContainer(id))
                        } else {
                            None
                        },
                        None => None,
                    }
                } else {
                    None
                }
            },
            ActionKind::Restart => {
                if matches!(self.current_tab, MonitorTab::Docker) && matches!(
                    self.docker_view,
                    DockerView::Containers,
                ) {
                    match self.docker_sel.selected() {
                        Some(i) => if i < self.containers.len() {
                            let id = self.containers[i].id.clone();
                            let name = self.containers[i].name.clone();
                            self.message = StatusMessage::RestartingContainer(name);
                            Some(ActionRequest::RestartContainer(id))
                        } else {
                            None
                        },
                        None => None,
                    }
                } else {
                    None
                }
            },
            ActionKind::Remove => {
                if matches!(self.current_tab, MonitorTab::Docker) && matches!(
                    self.docker_view,
                    DockerView::Containers,
                ) {
                    match self.docker_sel.selected() {
                        Some(i) => if i < self.containers.len() {
                            let id = self.containers[i].id.clone();
                            let name = self.containers[i].name.clone();
                            self.message = StatusMessage::DeletedContainer(name);
                            Some(ActionRequest::RemoveContainer(id))
                        } else {
                            None
                        },
                        None => None,
                    }
                } else if matches!(self.current_tab, MonitorTab::Docker) && matches!(
                    self.docker_view,
                    DockerView::Images,
                ) {
                    match self.docker_sel.selected() {
                        Some(i) => if i < self.images.len() {
                            let id = self.images[i].image_id.clone();
                            let repo = self.images[i].repository.clone();
                            self.message = StatusMessage::DeletedImage(repo);
                            Some(ActionRequest::RemoveImage(id))
                        } else {
                            None
                        },
                        None => None,
                    }
                } else if matches!(self.current_tab, MonitorTab::Kubernetes) {
                    match self.k8s_sel.selected() {
                        Some(i) => if i < self.pods.len() {
                            let name = self.pods[i].name.clone();
                            let namespace = self.pods[i].namespace.clone();
                            self.message = StatusMessage::DeletedPod(name.clone());
                            Some(ActionRequest::RemovePod { name, namespace })
                        } else {
                            None
                        },
                        None => None,
                    }
                } else {
                    None
                }
            },
        }
    }
}

} // verus!
