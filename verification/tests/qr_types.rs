use quirk::qr_types::{
    build, build_crypto, build_email, build_event, build_geo, build_sms, build_vcard, build_wifi,
    esc, strip_time, url_encode, CryptoKind, CryptoParams, EmailParams, EventParams, GeoParams,
    QrKind, QrParts, SmsParams, VCardParams, WifiParams, WifiSecurity,
};

#[test]
fn url_prepends_https_when_missing() {
    let p = QrParts {
        text: "example.com/path".into(),
        ..Default::default()
    };
    assert_eq!(build(QrKind::Url, &p).unwrap(), "https://example.com/path");
}

#[test]
fn url_passes_through_with_scheme() {
    let p = QrParts {
        text: "ftp://example.com".into(),
        ..Default::default()
    };
    assert_eq!(build(QrKind::Url, &p).unwrap(), "ftp://example.com");
}

#[test]
fn wifi_encodes_correctly() {
    let p = QrParts {
        wifi: WifiParams {
            ssid: "My Net".into(),
            password: "p@ss;word".into(),
            security: WifiSecurity::Wpa,
            hidden: false,
        },
        ..Default::default()
    };
    assert_eq!(
        build(QrKind::Wifi, &p).unwrap(),
        r#"WIFI:T:WPA;S:My Net;P:p@ss\;word;H:false;;"#
    );
}

#[test]
fn vcard_contains_minimum() {
    let p = QrParts {
        vcard: VCardParams {
            full_name: "Ada Lovelace".into(),
            email: "ada@example.com".into(),
            ..Default::default()
        },
        ..Default::default()
    };
    let out = build(QrKind::VCard, &p).unwrap();
    assert!(out.starts_with("BEGIN:VCARD\r\n"));
    assert!(out.contains("FN:Ada Lovelace"));
    assert!(out.contains("EMAIL:ada@example.com"));
    assert!(out.ends_with("END:VCARD\r\n"));
}

#[test]
fn crypto_btc_uri() {
    let p = QrParts {
        crypto: CryptoParams {
            kind: CryptoKind::Bitcoin,
            address: "1BoatSLRHtKNngkdXEeobR76b53LETtpyT".into(),
            amount: "0.001".into(),
            label: "Donation".into(),
            message: String::new(),
        },
        ..Default::default()
    };
    let out = build(QrKind::Crypto, &p).unwrap();
    assert!(out.starts_with("bitcoin:1BoatSLRHtKNngkdXEeobR76b53LETtpyT?"));
    assert!(out.contains("amount=0.001"));
    assert!(out.contains("label=Donation"));
}

#[test]
fn empty_inputs_return_none() {
    let p = QrParts::default();
    assert!(build(QrKind::Text, &p).is_none());
    assert!(build(QrKind::Wifi, &p).is_none());
    assert!(build(QrKind::VCard, &p).is_none());
    assert!(build(QrKind::Phone, &p).is_none());
}

#[test]
fn event_all_day_strips_time() {
    let p = QrParts {
        event: EventParams {
            summary: "Birthday".into(),
            start: "2026-12-31T18:00".into(),
            end: "2026-12-31T22:00".into(),
            all_day: true,
            ..Default::default()
        },
        ..Default::default()
    };
    let out = build(QrKind::Event, &p).unwrap();
    assert!(out.contains("DTSTART;VALUE=DATE:2026-12-31"));
    assert!(out.contains("DTEND;VALUE=DATE:2026-12-31"));
}

// ---------------------------------------------------------------------------

#[test]
fn every_kind_is_none_on_an_empty_form() {
    let p = QrParts::default();
    for kind in QrKind::all() {
        assert!(build(kind, &p).is_none(), "{:?}", kind);
    }
}

#[test]
fn text_is_trimmed() {
    let p = QrParts {
        text: "  hello world \n".into(),
        ..Default::default()
    };
    assert_eq!(build(QrKind::Text, &p).unwrap(), "hello world");
    let blank = QrParts {
        text: " \t\n ".into(),
        ..Default::default()
    };
    assert!(build(QrKind::Text, &blank).is_none());
    assert!(build(QrKind::Url, &blank).is_none());
}

#[test]
fn url_keeps_mailto_and_tel() {
    for t in ["mailto:a@b.c", "tel:+1555", "  https://x.y  "] {
        let p = QrParts {
            text: t.into(),
            ..Default::default()
        };
        assert_eq!(build(QrKind::Url, &p).unwrap(), t.trim());
    }
    let p = QrParts {
        text: "telephone.example".into(),
        ..Default::default()
    };
    assert_eq!(build(QrKind::Url, &p).unwrap(), "https://telephone.example");
}

#[test]
fn phone_is_tel_uri() {
    let p = QrParts {
        phone: SmsParams {
            phone: " +15551234567 ".into(),
            message: "ignored".into(),
        },
        ..Default::default()
    };
    assert_eq!(build(QrKind::Phone, &p).unwrap(), "tel:+15551234567");
}

#[test]
fn build_reads_only_its_part() {
    let mut p = QrParts {
        text: "note".into(),
        ..Default::default()
    };
    let before = build(QrKind::Text, &p);
    p.wifi.ssid = "Other".into();
    p.sms.phone = "123".into();
    assert_eq!(build(QrKind::Text, &p), before);
}

#[test]
fn build_phone_reads_only_the_number() {
    let mut p = QrParts::default();
    p.phone.phone = "+1 555".into();
    let before = build(QrKind::Phone, &p);
    p.phone.message = "changed".into();
    assert_eq!(build(QrKind::Phone, &p), before);
}

#[test]
fn esc_length_and_plain_text() {
    let s = "a;b:c";
    assert_eq!(esc(s).chars().count(), s.chars().count() + 2);
    assert_eq!(esc("Grace Hopper"), "Grace Hopper");
}

#[test]
fn esc_escapes_special_characters() {
    assert_eq!(esc(r#"a\b;c,d"e:f"#), r#"a\\b\;c\,d\"e\:f"#);
    assert_eq!(esc("plain text"), "plain text");
    assert_eq!(esc(""), "");
}

#[test]
fn url_encode_percent_encodes_utf8() {
    assert_eq!(url_encode("Az09-_.~"), "Az09-_.~");
    assert_eq!(url_encode("a b&c"), "a%20b%26c");
    assert_eq!(url_encode("\u{e9}"), "%C3%A9");
    assert_eq!(url_encode("\u{20ac}"), "%E2%82%AC");
    assert_eq!(url_encode(""), "");
}

#[test]
fn strip_time_keeps_the_date() {
    assert_eq!(strip_time("2026-12-31T18:00"), "2026-12-31");
    assert_eq!(strip_time("2026-12-31 18:00"), "2026-12-31");
    assert_eq!(strip_time("2026-12-31t18:00"), "2026-12-31");
    assert_eq!(strip_time("2026-12-31"), "2026-12-31");
    assert_eq!(strip_time(""), "");
}

#[test]
fn wifi_open_hidden_network() {
    let p = WifiParams {
        ssid: "Cafe:1".into(),
        password: String::new(),
        security: WifiSecurity::Open,
        hidden: true,
    };
    assert_eq!(build_wifi(&p), r#"WIFI:T:nopass;S:Cafe\:1;P:;H:true;;"#);
    let wep = WifiParams {
        security: WifiSecurity::Wep,
        ..p.clone()
    };
    assert!(build_wifi(&wep).starts_with("WIFI:T:WEP;"));
    let blank = WifiParams {
        ssid: "   ".into(),
        ..p
    };
    assert_eq!(build_wifi(&blank), "");
}

#[test]
fn vcard_full_layout() {
    let p = VCardParams {
        full_name: "  Grace Brewster Hopper ".into(),
        org: "Navy".into(),
        title: " ".into(),
        phone: "+1".into(),
        email: String::new(),
        url: "https://a.b".into(),
        address: "1 Main; City".into(),
        note: "n".into(),
    };
    assert_eq!(
        build_vcard(&p),
        "BEGIN:VCARD\r\nVERSION:3.0\r\nFN:  Grace Brewster Hopper \r\nN:Hopper;Grace;;;\r\n\
         ORG:Navy\r\nTEL:+1\r\nURL:https\\://a.b\r\nADR:;;1 Main\\; City;;;;\r\nNOTE:n\r\n\
         END:VCARD\r\n"
    );
    let one = VCardParams {
        full_name: "Cher".into(),
        ..Default::default()
    };
    assert!(build_vcard(&one).contains("N:Cher;Cher;;;\r\n"));
}

#[test]
fn email_query_string() {
    let p = EmailParams {
        to: "a@b.c".into(),
        subject: "Hi there".into(),
        body: "x=1".into(),
    };
    assert_eq!(build_email(&p), "mailto:a%40b.c?subject=Hi%20there&body=x%3D1");
    let only_body = EmailParams {
        subject: " ".into(),
        ..p.clone()
    };
    assert_eq!(build_email(&only_body), "mailto:a%40b.c?body=x%3D1");
    let bare = EmailParams {
        subject: String::new(),
        body: String::new(),
        ..p
    };
    assert_eq!(build_email(&bare), "mailto:a%40b.c");
}

#[test]
fn sms_uri() {
    let p = SmsParams {
        phone: " 555 ".into(),
        message: "Call me".into(),
    };
    assert_eq!(build_sms(&p), "smsto:555:Call%20me");
    let no_msg = SmsParams {
        message: "  ".into(),
        ..p
    };
    assert_eq!(build_sms(&no_msg), "smsto:555");
}

#[test]
fn geo_uri() {
    let p = GeoParams {
        latitude: " 37.7749".into(),
        longitude: "-122.4194 ".into(),
        altitude: Some(" 10 ".into()),
        query: "Golden Gate".into(),
    };
    assert_eq!(build_geo(&p), "geo:37.7749,-122.4194,10?Golden%20Gate");
    let flat = GeoParams {
        altitude: Some("  ".into()),
        query: String::new(),
        ..p.clone()
    };
    assert_eq!(build_geo(&flat), "geo:37.7749,-122.4194");
    let no_lon = GeoParams {
        longitude: String::new(),
        ..p
    };
    assert_eq!(build_geo(&no_lon), "");
}

#[test]
fn geo_altitude_input() {
    let mut g = GeoParams::default();
    g.set_altitude("  ".into());
    assert_eq!(g.altitude, None);
    g.set_altitude(" 12 ".into());
    assert_eq!(g.altitude.as_deref(), Some(" 12 "));
}

#[test]
fn event_timed_layout() {
    let p = EventParams {
        summary: "Stand-up, daily".into(),
        location: "Room A".into(),
        description: String::new(),
        start: "2026-01-31T18:00".into(),
        end: String::new(),
        all_day: false,
    };
    assert_eq!(
        build_event(&p),
        "BEGIN:VCALENDAR\r\nVERSION:2.0\r\nBEGIN:VEVENT\r\nSUMMARY:Stand-up\\, daily\r\n\
         LOCATION:Room A\r\nDTSTART:2026-01-31T18:00\r\nDTEND:2026-01-31T18:00\r\n\
         END:VEVENT\r\nEND:VCALENDAR\r\n"
    );
    let no_start = EventParams {
        start: " ".into(),
        ..p
    };
    assert_eq!(build_event(&no_start), "");
}

#[test]
fn ethereum_payment_with_message() {
    let p = CryptoParams {
        kind: CryptoKind::Ethereum,
        address: " 0xabc ".into(),
        amount: String::new(),
        label: String::new(),
        message: "thanks!".into(),
    };
    assert_eq!(build_crypto(&p), "ethereum:0xabc?message=thanks%21");
    let bare = CryptoParams {
        message: String::new(),
        ..p
    };
    assert_eq!(build_crypto(&bare), "ethereum:0xabc");
}

#[test]
fn labels() {
    assert_eq!(QrKind::VCard.label(), "Contact (vCard)");
    assert_eq!(QrKind::Geo.label(), "Location");
    assert_eq!(WifiSecurity::Wpa.label(), "WPA / WPA2");
    assert_eq!(WifiSecurity::Open.label(), "Open (no password)");
    assert_eq!(WifiSecurity::Open.token(), "nopass");
    assert_eq!(CryptoKind::Ethereum.label(), "Ethereum");
    assert_eq!(CryptoKind::Bitcoin.scheme(), "bitcoin");
    assert_eq!(QrKind::all().len(), 10);
    assert_eq!(WifiSecurity::all().len(), 3);
    assert_eq!(CryptoKind::all(), vec![CryptoKind::Bitcoin, CryptoKind::Ethereum]);
    assert_eq!(CryptoKind::default(), CryptoKind::Bitcoin);
}

#[test]
fn url_encode_leaves_only_url_safe_characters() {
    let out = url_encode("Grüße, 世界! /?#[]@ \t\n~");
    assert!(out
        .chars()
        .all(|c| c.is_ascii_alphanumeric() || "-_.~%".contains(c)));
    assert_eq!(out, "Gr%C3%BC%C3%9Fe%2C%20%E4%B8%96%E7%95%8C%21%20%2F%3F%23%5B%5D%40%20%09%0A~");
}
