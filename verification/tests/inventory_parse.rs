use montui::inventory::{
    merge_usage, parse_container_listings, parse_container_usages, parse_images, parse_net_io,
    parse_pods, refresh_containers, refresh_images, refresh_pods,
};

#[test]
fn malformed_listing_line_is_skipped_alone() {
    let text = "id1|img1|web|Up 2 days|80/tcp\n\
                id2|img2|db|Exited|\n\
                this line is malformed\n\
                id3|img3|cache|Up|6379/tcp\n";
    let rows = parse_container_listings(text);
    assert_eq!(rows.len(), 3);
    assert_eq!(rows[0].id, "id1");
    assert_eq!(rows[1].id, "id2");
    assert_eq!(rows[2].id, "id3");
    assert_eq!(rows[0].name, "web");
    assert_eq!(rows[1].ports, "");
    assert_eq!(rows[2].status, "Up");
}

#[test]
fn usage_lines_parse_percent_columns() {
    let text = "id1|12.5%|100MiB / 1GiB|3.4%|1.5kB / 2MB|0B / 0B\n";
    let rows = parse_container_usages(text);
    assert_eq!(rows.len(), 1);
    assert_eq!(rows[0].id, "id1");
    assert_eq!(rows[0].cpu_centi_percent, 1250);
    assert_eq!(rows[0].mem_centi_percent, 340);
    assert_eq!(rows[0].mem_usage, "100MiB / 1GiB");
    assert_eq!(rows[0].net_io, "1.5kB / 2MB");
}

#[test]
fn merge_fills_placeholders_for_missing_usage() {
    let listings = parse_container_listings("id1|img1|web|Up|80\nid2|img2|db|Up|5432\n");
    let usages = parse_container_usages("id2|50%|1MiB / 2MiB|25%|0B / 0B|0B / 0B\n");
    let merged = merge_usage(&listings, &usages);
    assert_eq!(merged.len(), 2);
    assert_eq!(merged[0].id, "id1");
    assert_eq!(merged[0].cpu_centi_percent, 0);
    assert_eq!(merged[0].mem_usage, "N/A");
    assert_eq!(merged[0].net_io, "N/A");
    assert_eq!(merged[0].block_io, "N/A");
    assert_eq!(merged[1].id, "id2");
    assert_eq!(merged[1].cpu_centi_percent, 5000);
    assert_eq!(merged[1].mem_centi_percent, 2500);
}

#[test]
fn later_usage_row_replaces_earlier_one() {
    let listings = parse_container_listings("id1|img|web|Up|80\n");
    let usages = parse_container_usages(
        "id1|10%|a|1%|0B / 0B|x\nid1|20%|b|2%|0B / 0B|y\n",
    );
    let merged = merge_usage(&listings, &usages);
    assert_eq!(merged[0].cpu_centi_percent, 2000);
    assert_eq!(merged[0].mem_usage, "b");
}

#[test]
fn missing_listing_response_yields_empty_inventory() {
    assert_eq!(refresh_containers(None, None).len(), 0);
    assert_eq!(refresh_images(None).len(), 0);
    assert_eq!(refresh_pods(None).len(), 0);
}

#[test]
fn missing_usage_response_keeps_every_container() {
    let merged = refresh_containers(Some("id1|img|web|Up|80\n"), None);
    assert_eq!(merged.len(), 1);
    assert_eq!(merged[0].mem_usage, "N/A");
}

#[test]
fn images_parse_in_order() {
    let text = "nginx|latest|aaa111|50MB\nbad line\nredis|7|bbb222|30MB\n";
    let rows = parse_images(text);
    assert_eq!(rows.len(), 2);
    assert_eq!(rows[0].repository, "nginx");
    assert_eq!(rows[0].tag, "latest");
    assert_eq!(rows[0].image_id, "aaa111");
    assert_eq!(rows[0].size, "50MB");
    assert_eq!(rows[1].repository, "redis");
}

#[test]
fn pods_split_on_whitespace_columns() {
    let text = "web-1   default    Running   2   2024-01-01T00:00:00Z\n\
                short line\n\
                db-1\tkube-system\tPending\t0\t2024-02-02T00:00:00Z\n";
    let rows = parse_pods(text);
    assert_eq!(rows.len(), 2);
    assert_eq!(rows[0].name, "web-1");
    assert_eq!(rows[0].namespace, "default");
    assert_eq!(rows[0].status, "Running");
    assert_eq!(rows[0].restarts, "2");
    assert_eq!(rows[1].name, "db-1");
    assert_eq!(rows[1].age, "2024-02-02T00:00:00Z");
}

#[test]
fn net_io_exact_quantities() {
    assert_eq!(parse_net_io("1.5kB / 2MB"), (150, 204800));
    assert_eq!(parse_net_io("3GB / 0.25kB"), (314572800, 25));
}

#[test]
fn net_io_unknown_suffix_counts_zero() {
    assert_eq!(parse_net_io("0B / 12TB"), (0, 0));
}

#[test]
fn net_io_malformed_column_counts_zero() {
    assert_eq!(parse_net_io("N/A"), (0, 0));
    assert_eq!(parse_net_io("1kB"), (0, 0));
    assert_eq!(parse_net_io("1kB / 2kB / 3kB"), (0, 0));
}
