use ustb_portal::wlan::get_params;

fn owned(a: &str, b: &str, c: &str) -> (String, String, String) {
    (a.to_string(), b.to_string(), c.to_string())
}

#[test]
fn gateway_redirect_parameters() {
    assert_eq!(
        get_params("http://202.204.48.66/a79.htm?wlanacname=WX5560X&wlanuserip=10.24.21.251&nasip=10%2E0%2E108%2E19"),
        owned("10.24.21.251", "WX5560X", "10.0.108.19")
    );
    assert_eq!(
        get_params("http://202.204.48.66/a79.htm?wlanuserip=10.39.179.219&wlanacname=WX5560H&nasip=10%2E0%2E124%2E68"),
        owned("10.39.179.219", "WX5560H", "10.0.124.68")
    );
}

#[test]
fn gateway_redirect_edge_cases() {
    assert_eq!(get_params(""), owned("", "", ""));
    assert_eq!(get_params("wlanuserip=1.2.3.4"), owned("1.2.3.4", "", ""));
    assert_eq!(get_params("a?b?wlanacname=X&wlanacname=Y"), owned("", "Y", ""));
    assert_eq!(get_params("x?nasip=1=2&wlanuserip"), owned("", "", "1"));
    assert_eq!(get_params("x?nasip=%2E%2%2E"), owned("", "", ".%2."));
}
