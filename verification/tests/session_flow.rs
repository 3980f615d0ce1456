use montui::select::Selection;
use montui::session::{
    ActionKind, ActionRequest, HostMetrics, InventoryFetch, MonitorTab, MonitoringSession,
    PresetKind, StatusMessage,
};

fn metrics(net_recv: u64, net_sent: u64, now_micros: u64) -> HostMetrics {
    HostMetrics {
        cpu_centi_percent: 2550,
        mem_total: 1000,
        mem_used: 250,
        net_received: net_recv,
        net_transmitted: net_sent,
        now_micros,
    }
}

#[test]
fn fresh_session_state() {
    let s = MonitoringSession::new();
    assert!(matches!(s.current_tab, MonitorTab::System));
    assert_eq!(s.containers.len(), 0);
    assert_eq!(s.images.len(), 0);
    assert_eq!(s.pods.len(), 0);
    assert_eq!(s.docker_sel, Selection::Focused(0));
    assert_eq!(s.k8s_sel, Selection::Focused(0));
    assert_eq!(s.cpu_history.to_vec(), vec![0u64; 60]);
    assert!(matches!(s.message, StatusMessage::Idle));
    assert!(!s.dialog_open);
}

#[test]
fn two_ticks_push_network_rates_at_buffer_tail() {
    let mut s = MonitoringSession::new();
    s.tick(metrics(0, 0, 0), InventoryFetch::Skipped);
    s.tick(metrics(2048, 1024, 1_000_000), InventoryFetch::Skipped);
    assert_eq!(s.recv_rate_bps, 2048);
    assert_eq!(s.send_rate_bps, 1024);
    let recv = s.recv_history.to_vec();
    let sent = s.send_history.to_vec();
    assert_eq!(recv[59], 2, "receive rate of 2 KB/s at the tail");
    assert_eq!(sent[59], 1, "send rate of 1 KB/s at the tail");
    assert_eq!(recv[58], 0, "first tick had no previous sample");
    assert_eq!(s.cpu_history.to_vec()[59], 26, "25.50% rounds to 26");
    assert_eq!(s.ram_history.to_vec()[59], 25, "250 of 1000 is 25%");
}

#[test]
fn docker_tick_replaces_inventory_and_records_history() {
    let mut s = MonitoringSession::new();
    s.switch_tab(MonitorTab::Docker);
    let ps = "id1|nginx|web|Up|80/tcp\nid2|redis|cache|Up|6379/tcp\n";
    let stats = "id1|12.5%|10MiB / 1GiB|3.4%|1.5kB / 2MB|0B / 0B\n";
    s.tick(
        metrics(0, 0, 0),
        InventoryFetch::Docker {
            ps: Some(String::from(ps)),
            stats: Some(String::from(stats)),
            images: Some(String::from("nginx|latest|aaa|10MB\n")),
        },
    );
    assert_eq!(s.containers.len(), 2);
    assert_eq!(s.images.len(), 1);
    assert_eq!(s.docker_sel, Selection::Focused(0));
    let h1 = s.histories.get("id1").unwrap();
    assert_eq!(h1.len(), 1);
    assert_eq!(h1[0].cpu_centi_percent, 1250);
    assert_eq!(h1[0].mem_centi_percent, 340);
    assert_eq!(h1[0].net_rx_centi_kb, 150);
    assert_eq!(h1[0].net_tx_centi_kb, 204800);
    let h2 = s.histories.get("id2").unwrap();
    assert_eq!(h2[0].cpu_centi_percent, 0);
    assert_eq!(h2[0].net_rx_centi_kb, 0);
}

#[test]
fn failed_fetch_empties_list_and_clamps_selection() {
    let mut s = MonitoringSession::new();
    s.switch_tab(MonitorTab::Docker);
    assert_eq!(s.docker_sel, Selection::Focused(0));
    s.tick(
        metrics(0, 0, 0),
        InventoryFetch::Docker { ps: None, stats: None, images: None },
    );
    assert_eq!(s.containers.len(), 0);
    assert_eq!(s.docker_sel, Selection::Empty);
}

#[test]
fn kubernetes_tick_refreshes_pods() {
    let mut s = MonitoringSession::new();
    s.switch_tab(MonitorTab::Kubernetes);
    s.k8s_sel = Selection::Focused(5);
    s.tick(
        metrics(0, 0, 0),
        InventoryFetch::Kubernetes {
            pods: Some(String::from(
                "web-1 default Running 0 1d\ndb-1 default Running 2 2d\n",
            )),
        },
    );
    assert_eq!(s.pods.len(), 2);
    assert_eq!(s.k8s_sel, Selection::Focused(1), "stale focus clamps to last row");
}

#[test]
fn navigation_follows_active_tab() {
    let mut s = MonitoringSession::new();
    s.switch_tab(MonitorTab::Docker);
    s.tick(
        metrics(0, 0, 0),
        InventoryFetch::Docker {
            ps: Some(String::from("a|i|n1|Up|p\nb|i|n2|Up|p\nc|i|n3|Up|p\n")),
            stats: None,
            images: None,
        },
    );
    s.next_item();
    assert_eq!(s.docker_sel, Selection::Focused(1));
    s.previous_item();
    s.previous_item();
    assert_eq!(s.docker_sel, Selection::Focused(2), "wraps to the last row");
    assert_eq!(s.k8s_sel, Selection::Focused(0), "other tab's focus untouched");
}

#[test]
fn switch_view_toggles_list_and_resets_focus() {
    let mut s = MonitoringSession::new();
    s.switch_tab(MonitorTab::Docker);
    s.tick(
        metrics(0, 0, 0),
        InventoryFetch::Docker {
            ps: Some(String::from("a|i|n1|Up|p\n")),
            stats: None,
            images: None,
        },
    );
    s.switch_view();
    assert!(matches!(s.docker_view, montui::session::DockerView::Images));
    assert_eq!(s.docker_sel, Selection::Empty, "no images were listed");
    s.switch_view();
    assert_eq!(s.docker_sel, Selection::Focused(0));
}

#[test]
fn invoke_stop_targets_focused_container() {
    let mut s = MonitoringSession::new();
    s.switch_tab(MonitorTab::Docker);
    s.tick(
        metrics(0, 0, 0),
        InventoryFetch::Docker {
            ps: Some(String::from("id1|img|web|Up|80\nid2|img|db|Up|5432\n")),
            stats: None,
            images: None,
        },
    );
    s.next_item();
    let r = s.invoke_action(ActionKind::Stop);
    match r {
        Some(ActionRequest::StopContainer(id)) => assert_eq!(id, "id2"),
        other => panic!("unexpected request: {:?}", other),
    }
    match &s.message {
        StatusMessage::StoppedContainer(name) => assert_eq!(name, "db"),
        other => panic!("unexpected message: {:?}", other),
    }
}

#[test]
fn invoke_action_without_selection_does_nothing() {
    let mut s = MonitoringSession::new();
    s.switch_tab(MonitorTab::Docker);
    s.tick(
        metrics(0, 0, 0),
        InventoryFetch::Docker { ps: None, stats: None, images: None },
    );
    assert!(s.invoke_action(ActionKind::Stop).is_none());
    assert!(matches!(s.message, StatusMessage::Idle));
}

#[test]
fn preset_launch_shows_optimistic_message() {
    let mut s = MonitoringSession::new();
    s.switch_tab(MonitorTab::Docker);
    let r = s.invoke_action(ActionKind::CreatePreset(PresetKind::Postgres));
    assert!(matches!(r, Some(ActionRequest::CreatePreset(PresetKind::Postgres))));
    assert!(matches!(s.message, StatusMessage::CreatingPreset(PresetKind::Postgres)));
    let mut t = MonitoringSession::new();
    assert!(t.invoke_action(ActionKind::CreatePreset(PresetKind::Redis)).is_none());
}

#[test]
fn dialog_flow_submit_returns_run_request() {
    let mut s = MonitoringSession::new();
    s.switch_tab(MonitorTab::Docker);
    s.open_create_dialog();
    assert!(s.dialog_open);
    for c in "nginx".chars() {
        s.dialog_type_char(c);
    }
    s.dialog_focus_next();
    for c in "web".chars() {
        s.dialog_type_char(c);
    }
    let rr = s.dialog_submit().unwrap();
    assert_eq!(rr.image, "nginx");
    assert_eq!(rr.args, vec!["run", "-d", "--name", "web", "nginx"]);
    assert!(!s.dialog_open);
    assert_eq!(s.dialog.image_name, "");
    s.report_create_result(true, String::from("nginx"));
    match &s.message {
        StatusMessage::CreateSucceeded(img) => assert_eq!(img, "nginx"),
        other => panic!("unexpected message: {:?}", other),
    }
}

#[test]
fn submitting_without_image_reports_validation_error() {
    let mut s = MonitoringSession::new();
    s.switch_tab(MonitorTab::Docker);
    s.open_create_dialog();
    assert!(s.dialog_submit().is_none());
    assert!(matches!(s.message, StatusMessage::ImageNameRequired));
    assert!(!s.dialog_open);
}

#[test]
fn dialog_cancel_discards_fields() {
    let mut s = MonitoringSession::new();
    s.switch_tab(MonitorTab::Docker);
    s.open_create_dialog();
    s.dialog_type_char('x');
    s.dialog_cancel();
    assert!(!s.dialog_open);
    assert_eq!(s.dialog.image_name, "");
}

#[test]
fn create_failure_is_reported() {
    let mut s = MonitoringSession::new();
    s.report_create_result(false, String::from("no such image"));
    match &s.message {
        StatusMessage::CreateFailed(err) => assert_eq!(err, "no such image"),
        other => panic!("unexpected message: {:?}", other),
    }
}
