use ustb_portal::client::{login_log_from_cells, login_log_response, mac_list_response, month_pay_response};
use ustb_portal::model::PortalError;
use ustb_portal::table::{decode_login_log, decode_login_table, decode_month_pay, decode_month_table};
use ustb_portal::text::{contains_str, parse_milli_cell, parse_uint_cell};

fn strings(v: &[&str]) -> Vec<String> {
    v.iter().map(|s| s.to_string()).collect()
}

fn three_rows() -> Vec<String> {
    strings(&[
        "2023-04-01 00:00:04",
        "2023-04-01 00:12:53",
        "\n\t\t\t\t\t\t\t13\n\t\t\t\t\t\t",
        "\n\t\t\t\t\t\t\t28.997\n\t\t\t\t\t\t",
        "\n\t\t\t\t\t\t\t28.997\n\t\t\t\t\t\t",
        "\n\t\t\t\t\t\t\t0.00\n\t\t\t\t\t\t",
        "\n\t\t\t\t\t\t\t2.315\n\t\t\t\t\t\t",
        "\n\t\t\t\t\t\t\t28.997\n\t\t\t\t\t\t",
        "\n\t\t\t\t\t\t\t1.800\n\t\t\t\t\t\t",
        "\n\t\t\t\t\t\t\t23.113\n\t\t\t\t\t\t",
        "10.0.0.1",
        "2001:da8::1",
        // second row: no IPv6 address, eleven cells
        "2023-04-02 10:00:00",
        "2023-04-02 11:00:00",
        "3600",
        "1.5",
        "1.5",
        "0.10",
        "0.1",
        "1.5",
        "0",
        "0",
        "10.0.0.2",
        // third row
        "2023-04-03 08:00:00",
        "2023-04-03 09:30:00",
        "5400",
        "2",
        "2",
        "0",
        "0.5",
        "2",
        "0.25",
        "0.75",
        "10.0.0.3",
        "2001:da8::3",
    ])
}

#[test]
fn numbers_parse_in_thousandths() {
    assert_eq!(parse_milli_cell("28.997"), Some(28997));
    assert_eq!(parse_milli_cell("\n\t 0.5 \n"), Some(500));
    assert_eq!(parse_milli_cell("181351.69"), Some(181351690));
    assert_eq!(parse_milli_cell("7"), Some(7000));
    assert_eq!(parse_milli_cell("7."), Some(7000));
    assert_eq!(parse_milli_cell("1.2345"), None);
    assert_eq!(parse_milli_cell(""), None);
    assert_eq!(parse_milli_cell(".5"), None);
    assert_eq!(parse_milli_cell("1,5"), None);
    assert_eq!(parse_uint_cell(" 85922 "), Some(85922));
    assert_eq!(parse_uint_cell("18446744073709551615"), Some(u64::MAX));
    assert_eq!(parse_uint_cell("18446744073709551616"), None);
    assert_eq!(parse_uint_cell("12a"), None);
}

#[test]
fn substring_search() {
    assert!(contains_str("<a href=\"nav_login\">", "nav_login"));
    assert!(!contains_str("nav_logi", "nav_login"));
    assert!(contains_str("anything", ""));
}

#[test]
fn row_without_ipv6_resynchronises() {
    let rows = decode_login_table(&three_rows()).unwrap();
    assert_eq!(rows.len(), 3);
    assert_eq!(rows[0].online_time, 1680307204);
    assert_eq!(rows[0].offline_time, 1680307973);
    assert_eq!(rows[0].used_duration, 13);
    assert_eq!(rows[0].used_flow, 28997);
    assert_eq!(rows[0].cost, 0);
    assert_eq!(rows[0].ipv4_up, 2315);
    assert_eq!(rows[0].ipv4_down, 28997);
    assert_eq!(rows[0].ipv6_up, 1800);
    assert_eq!(rows[0].ipv6_down, 23113);
    assert_eq!(rows[0].ipv4_addr, "10.0.0.1");
    assert_eq!(rows[0].ipv6_addr, "2001:da8::1");
    assert_eq!(rows[1].online_time, 1680429600);
    assert_eq!(rows[1].used_duration, 3600);
    assert_eq!(rows[1].cost, 100);
    assert_eq!(rows[1].ipv4_addr, "10.0.0.2");
    assert_eq!(rows[1].ipv6_addr, "");
    // the probed cell was kept as the third row's online time
    assert_eq!(rows[2].online_time, 1680508800);
    assert_eq!(rows[2].offline_time, 1680514200);
    assert_eq!(rows[2].ipv6_down, 750);
    assert_eq!(rows[2].ipv6_addr, "2001:da8::3");
}

#[test]
fn last_row_without_ipv6_is_kept() {
    let cells = strings(&[
        "2023-04-01 00:00:04",
        "2023-04-01 00:12:53",
        "13",
        "28.997",
        "28.997",
        "0.00",
        "2.315",
        "28.997",
        "1.800",
        "23.113",
        "10.0.0.1",
        "2023-04-01 01:00:00",
        "2023-04-01 02:00:00",
        "60",
        "1",
        "1",
        "0",
        "0",
        "1",
        "0",
        "0",
        "10.0.0.2",
    ]);
    let rows = decode_login_table(&cells).unwrap();
    assert_eq!(rows.len(), 2);
    assert_eq!(rows[0].online_time, 1680307204);
    assert_eq!(rows[0].offline_time, 1680307973);
    assert_eq!(rows[0].ipv4_addr, "10.0.0.1");
    assert_eq!(rows[0].ipv6_addr, "");
    assert_eq!(rows[1].online_time, 1680310800);
    assert_eq!(rows[1].offline_time, 1680314400);
    assert_eq!(rows[1].used_duration, 60);
    assert_eq!(rows[1].ipv4_addr, "10.0.0.2");
    assert_eq!(rows[1].ipv6_addr, "");
    let one = decode_login_table(&cells[11..].to_vec()).unwrap();
    assert_eq!(one.len(), 1);
    let log = decode_login_log(&strings(&["0", "1", "0", "0", "1", "0", "60"]), &cells[11..].to_vec()).unwrap();
    assert_eq!(log.every_login_data.iter().map(|r| r.used_duration).sum::<u64>(), log.used_duration);
    assert_eq!(log.every_login_data.iter().map(|r| r.used_flow).sum::<u64>(), log.used_flow);
}

#[test]
fn trailing_partial_row_is_dropped() {
    let mut cells = three_rows();
    cells.push("2023-04-04 08:00:00".to_string());
    cells.push("2023-04-04 09:00:00".to_string());
    assert_eq!(decode_login_table(&cells).unwrap().len(), 3);
}

#[test]
fn bad_cell_fails_whole_table() {
    let mut cells = three_rows();
    cells[14] = "n/a".to_string();
    assert!(decode_login_table(&cells).is_none());
    let mut cells = three_rows();
    cells[0] = "2023/04/01 00:00:04".to_string();
    assert!(decode_login_table(&cells).is_none());
}

fn summary() -> Vec<String> {
    strings(&["18170.41", "181351.69", "33287.1", "39530.03", "181351.69", "0.0", "85922"])
}

#[test]
fn login_log_summary_row() {
    let log = decode_login_log(&summary(), &three_rows()).unwrap();
    assert_eq!(log.ipv4_up, 18170410);
    assert_eq!(log.ipv4_down, 181351690);
    assert_eq!(log.ipv6_up, 33287100);
    assert_eq!(log.ipv6_down, 39530030);
    assert_eq!(log.used_flow, 181351690);
    assert_eq!(log.cost, 0);
    assert_eq!(log.used_duration, 85922);
    assert_eq!(log.every_login_data.len(), 3);
}

#[test]
fn missing_summary_is_no_data() {
    let r = decode_login_log(&Vec::new(), &three_rows());
    assert!(matches!(r, Err(PortalError::NoDataForRange)));
    let r = decode_login_log(&strings(&["1", "2"]), &three_rows());
    assert!(matches!(r, Err(PortalError::DecodeError)));
}

#[test]
fn expired_session_is_not_no_data() {
    let r = login_log_from_cells("<script>location='nav_login'</script>", &Vec::new(), &Vec::new());
    assert!(matches!(r, Err(PortalError::SessionExpired)));
    let r = login_log_from_cells("<html><body></body></html>", &Vec::new(), &Vec::new());
    assert!(matches!(r, Err(PortalError::NoDataForRange)));
    let r = login_log_from_cells("<a href=\"nav_login\">", &summary(), &three_rows());
    assert!(matches!(r, Err(PortalError::SessionExpired)));
}

fn td(cells: &[&str]) -> String {
    cells.iter().map(|c| format!("<td>{}</td>", c)).collect::<Vec<_>>().join("")
}

#[test]
fn login_log_page_decodes() {
    let body = format!(
        "<html><body><span class=\"redtext\">1.5</span><span class=\"redtext\">2.5</span>\
         <span class=\"redtext\">0</span><span class=\"redtext\">0</span>\
         <span class=\"redtext\">2.5</span><span class=\"redtext\">0.10</span>\
         <span class=\"redtext\">3600</span>\
         <table class=\"table4\"><tbody><tr>{}</tr></tbody></table></body></html>",
        td(&[
            "2023-04-02 10:00:00",
            "2023-04-02 11:00:00",
            "3600",
            "2.5",
            "2.5",
            "0.10",
            "1.5",
            "2.5",
            "0",
            "0",
            "10.0.0.2",
            "2001:da8::2",
        ])
    );
    let log = login_log_response(&body).unwrap();
    assert_eq!(log.ipv4_up, 1500);
    assert_eq!(log.used_duration, 3600);
    assert_eq!(log.every_login_data.len(), 1);
    assert_eq!(log.every_login_data[0].ipv6_addr, "2001:da8::2");
    assert_eq!(log.every_login_data[0].online_time, 1680429600);
    let empty = login_log_response("<html><body><table class=\"table4\"></table></body></html>");
    assert!(matches!(empty, Err(PortalError::NoDataForRange)));
}

fn month_cells() -> Vec<String> {
    strings(&[
        "2024-05 usage", "x", "x", "x", "12.50", "36000", "1024.5", "",
        "2024-04 usage", "x", "x", "x", "10", "7200", "512", "",
    ])
}

#[test]
fn month_grid_comes_out_chronological() {
    let months = decode_month_table(&month_cells()).unwrap();
    assert_eq!(months.len(), 2);
    assert_eq!(months[0].month, 4);
    assert_eq!(months[0].month_cost, 10000);
    assert_eq!(months[0].month_used_duration, 7200);
    assert_eq!(months[0].month_used_flow, 512000);
    assert_eq!(months[1].month, 5);
    assert_eq!(months[1].month_cost, 12500);
    assert_eq!(months[1].month_used_flow, 1024500);
}

#[test]
fn month_grid_rejects_bad_label() {
    let mut cells = month_cells();
    cells[0] = "2024-13".to_string();
    assert!(decode_month_table(&cells).is_none());
    cells[0] = "2024".to_string();
    assert!(decode_month_table(&cells).is_none());
}

#[test]
fn yearly_summary_totals() {
    let info = decode_month_pay(&strings(&["0.00", "22.50", "43200", "1536.5"]), &month_cells()).unwrap();
    assert_eq!(info.year_cost, 22500);
    assert_eq!(info.year_used_duration, 43200);
    assert_eq!(info.year_used_flow, 1536500);
    assert_eq!(info.monthly_data.len(), 2);
    assert!(decode_month_pay(&strings(&["0.00", "22.50"]), &month_cells()).is_none());
}

#[test]
fn yearly_summary_page() {
    let body = format!(
        "<html><body><span class=\"redtext\">0.00</span><span class=\"redtext\">10</span>\
         <span class=\"redtext\">7200</span><span class=\"redtext\">512</span>\
         <table class=\"table4\"><tbody><tr>{}</tr></tbody></table></body></html>",
        td(&["2024-04 usage", "x", "x", "x", "10", "7200", "512", "-"])
    );
    let info = month_pay_response(&body).unwrap();
    assert_eq!(info.year_cost, 10000);
    assert_eq!(info.monthly_data.len(), 1);
    assert_eq!(info.monthly_data[0].month, 4);
    assert!(matches!(month_pay_response("go to nav_login"), Err(PortalError::SessionExpired)));
}

#[test]
fn bound_devices_pair_by_position() {
    let body = "<html><body>\
        <div class=\"row\"><div class=\"v-col\"><input type=\"text\" value=\"laptop\"></div>\
        <div class=\"v-col\"><input type=\"text\" name=\"macs\" value=\"AABBCCDDEEFF\"></div></div>\
        <div class=\"row\"><div class=\"v-col\"><input type=\"text\" value=\"phone\"></div>\
        <div class=\"v-col\"><input type=\"text\" name=\"macs\" value=\"112233445566\"></div></div>\
        </body></html>";
    let names = vec![("112233445566".to_string(), "my phone".to_string())];
    let macs = mac_list_response(body, &names).unwrap();
    assert_eq!(macs.len(), 2);
    assert_eq!(macs[0].device_name, "laptop");
    assert_eq!(macs[0].mac_address, "AABBCCDDEEFF");
    assert_eq!(macs[0].custom_name, "");
    assert_eq!(macs[1].device_name, "phone");
    assert_eq!(macs[1].custom_name, "my phone");
    assert!(matches!(mac_list_response("nav_login", &names), Err(PortalError::SessionExpired)));
}
