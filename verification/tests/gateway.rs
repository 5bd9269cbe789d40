use zeroclaw::gateway::{
    failure_page, failure_script, gateway_addr, gateway_args, gateway_binary, gateway_socket_text,
    redirect_script, still_booting,
};

#[test]
fn gateway_address() {
    assert_eq!(gateway_addr(), "http://127.0.0.1:9573");
    assert_eq!(gateway_socket_text(), "127.0.0.1:9573");
}

#[test]
fn gateway_command() {
    assert_eq!(gateway_binary(None), "zeroclaw");
    assert_eq!(gateway_binary(Some("/usr/bin/zc")), "/usr/bin/zc");
    assert_eq!(gateway_args(), vec!["gateway", "--host", "127.0.0.1", "--port", "9573"]);
}

#[test]
fn boot_window_is_twenty_seconds() {
    assert!(still_booting(0));
    assert!(still_booting(19_999_999_999));
    assert!(!still_booting(20_000_000_000));
}

#[test]
fn window_scripts() {
    assert_eq!(redirect_script(), "window.location.replace(\"http://127.0.0.1:9573\");");
    let page = failure_page("not found");
    assert_eq!(
        page,
        "<h2>ZeroClaw Desktop</h2><p>Unable to start local gateway.</p><pre>not found</pre><p>Run <code>zeroclaw gateway --host 127.0.0.1 --port 9573</code> and relaunch.</p>"
    );
    assert_eq!(
        failure_script("not found"),
        format!("document.body.innerHTML = {:?}; document.title = 'ZeroClaw Desktop';", page)
    );
}
