use paf_desktop::hosts::{is_external_host, is_own_host, supports_desktop_auth};

#[test]
fn outside_services_are_external() {
    for host in [
        "personio.com",
        "planet-a-foods.personio.com",
        "app.spendesk.com",
        "SPENDESK.COM",
        "qwikinow.de",
        "paf.qwikinow.de",
        "personio.com.",
        "App.Personio.Com..",
    ] {
        assert!(is_external_host(host), "{host}");
    }
}

#[test]
fn other_hosts_are_not_external() {
    for host in [
        "hub.planet-a-foods.com",
        "planet-a-foods.com",
        "notpersonio.com",
        "personio.com.evil.example",
        "personio.de",
        "qwikinow.com",
        "",
        ".",
        "com",
    ] {
        assert!(!is_external_host(host), "{host}");
    }
}

#[test]
fn apps_with_a_browser_sign_in() {
    for host in [
        "note.planet-a-foods.com",
        "feedback.planet-a-foods.com",
        "commodity.planet-a-foods.com",
        "coa.planet-a-foods.com",
        "analytics.planet-a-foods.com",
        "NOTE.planet-a-foods.com.",
    ] {
        assert!(supports_desktop_auth(host), "{host}");
        assert!(is_own_host(host), "{host}");
        assert!(!is_external_host(host), "{host}");
    }
    for host in ["hub.planet-a-foods.com", "planet-a-foods.com", "x.note.planet-a-foods.com", "note"] {
        assert!(!supports_desktop_auth(host), "{host}");
    }
}

#[test]
fn own_hosts_are_anchored_at_a_dot() {
    assert!(is_own_host("planet-a-foods.com"));
    assert!(is_own_host("a.b.Planet-A-Foods.com."));
    assert!(is_own_host(".planet-a-foods.com"));
    assert!(!is_own_host("evilplanet-a-foods.com"));
    assert!(!is_own_host("planet-a-foods.com.evil.example"));
    assert!(!is_own_host("planet-a-foods.co"));
}

#[test]
fn subdomains_follow_their_host() {
    for host in ["personio.com", "Spendesk.com.", "x.qwikinow.de"] {
        assert!(is_external_host(&format!("Sub.{host}")));
    }
    assert!(is_own_host("Sub.planet-a-foods.com"));
}
