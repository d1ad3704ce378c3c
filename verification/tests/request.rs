use sauna_monitor::ambient::{create_request_for_ambient, SensorReadings};
use sauna_monitor::ds18b20_wrapper::DUMMY_WATER_TEMP;
use sauna_monitor::decimal::{append_decimal, append_tenths, append_text, decimal_len};
use sauna_monitor::env_ii_sensor::SHT3X;
use sauna_monitor::http::{Action, Endpoint, Event, HttpError, HttpPost};
use sauna_monitor::report::{write_readings, write_status_line};
use sauna_monitor::text::Overflow;

fn buffer(text: &str) -> heapless::String<256> {
    let mut s: heapless::String<256> = heapless::String::new();
    s.push_str(text).unwrap();
    s
}

#[test]
fn request_follows_the_template() {
    let mut msg = buffer("");
    assert_eq!(create_request_for_ambient(42, "abc", [10, 20, 30], &mut msg), Ok(()));
    let body = "{\"writeKey\":\"abc\",\"d1\":\"1.0\",\"d2\":\"2.0\",\"d3\":\"3.0\"}\n";
    let expected = format!(
        "POST /api/v2/channels/42/data HTTP/1.1\r\nHost: 54.65.206.59\r\nContent-Type: application/json\r\nContent-Length: 52\r\n\r\n{}",
        body
    );
    assert_eq!(msg.as_str(), expected);
    assert!(msg.as_str().starts_with("POST /api/v2/channels/42/data HTTP/1.1\r\n"));
    assert_eq!(msg.as_str().matches("Content-Length:").count(), 1);
    let (head, sent_body) = msg.as_str().split_once("\r\n\r\n").unwrap();
    assert_eq!(sent_body, body);
    let declared: usize =
        head.lines().find_map(|l| l.strip_prefix("Content-Length: ")).unwrap().parse().unwrap();
    assert_eq!(declared, sent_body.len());
    assert_eq!(msg.len(), 166);
}

#[test]
fn request_is_appended_to_what_the_buffer_holds() {
    let mut msg = buffer("xy");
    assert_eq!(create_request_for_ambient(7, "k", [0, -15, 999], &mut msg), Ok(()));
    assert!(msg.as_str().starts_with("xyPOST /api/v2/channels/7/data HTTP/1.1\r\n"));
    assert!(msg.as_str().ends_with(
        "Content-Length: 52\r\n\r\n{\"writeKey\":\"k\",\"d1\":\"0.0\",\"d2\":\"-1.5\",\"d3\":\"99.9\"}\n"
    ));
    let mut msg = buffer("");
    create_request_for_ambient(u32::MAX, "", [i32::MIN, i32::MAX, -1], &mut msg).unwrap();
    assert!(msg.as_str().starts_with("POST /api/v2/channels/4294967295/data HTTP/1.1\r\n"));
    assert!(msg.as_str().ends_with(
        "{\"writeKey\":\"\",\"d1\":\"-214748364.8\",\"d2\":\"214748364.7\",\"d3\":\"-0.1\"}\n"
    ));
}

#[test]
fn request_that_does_not_fit_leaves_the_buffer() {
    let long_key = "k".repeat(120);
    let mut msg = buffer("");
    let r = create_request_for_ambient(42, &long_key, [10, 20, 30], &mut msg);
    assert_eq!(r, Err(Overflow));
    assert_eq!(msg.as_str(), "");
    let huge_key = "k".repeat(300);
    assert_eq!(
        create_request_for_ambient(42, &huge_key, [10, 20, 30], &mut msg),
        Err(Overflow)
    );
    assert_eq!(msg.as_str(), "");
    let mut used = buffer(&"z".repeat(100));
    let r = create_request_for_ambient(42, "abc", [10, 20, 30], &mut used);
    assert_eq!(r, Err(Overflow));
    assert_eq!(used.as_str(), "z".repeat(100));
}

#[test]
fn request_fits_exactly_at_capacity() {
    // 166 bytes with a three-byte key and a two-digit length: a key of 93
    // bytes makes the body 142 bytes and the request 257, one too many.
    let mut msg = buffer("");
    let key = "k".repeat(92);
    assert_eq!(create_request_for_ambient(42, &key, [10, 20, 30], &mut msg), Ok(()));
    assert_eq!(msg.len(), 256);
    let mut msg = buffer("");
    let key = "k".repeat(93);
    assert_eq!(
        create_request_for_ambient(42, &key, [10, 20, 30], &mut msg),
        Err(Overflow)
    );
    assert_eq!(msg.len(), 0);
}

#[test]
fn decimal_digits_are_appended() {
    let mut s = buffer("n=");
    assert_eq!(append_decimal(&mut s, 0), Ok(()));
    assert_eq!(append_text(&mut s, ","), Ok(()));
    assert_eq!(append_decimal(&mut s, 7), Ok(()));
    assert_eq!(append_text(&mut s, ","), Ok(()));
    assert_eq!(append_decimal(&mut s, 12345), Ok(()));
    assert_eq!(append_text(&mut s, ","), Ok(()));
    assert_eq!(append_decimal(&mut s, 1000), Ok(()));
    assert_eq!(append_text(&mut s, ","), Ok(()));
    assert_eq!(append_decimal(&mut s, u64::MAX), Ok(()));
    assert_eq!(s.as_str(), "n=0,7,12345,1000,18446744073709551615");
    assert_eq!(decimal_len(0), 1);
    assert_eq!(decimal_len(9), 1);
    assert_eq!(decimal_len(10), 2);
    assert_eq!(decimal_len(u64::MAX), 20);
}

#[test]
fn tenths_have_one_digit_behind_the_point() {
    let mut s = buffer("");
    for (tenths, text) in [
        (0, "0.0"),
        (5, "0.5"),
        (-5, "-0.5"),
        (198, "19.8"),
        (250, "25.0"),
        (1000, "100.0"),
        (-550, "-55.0"),
        (-1, "-0.1"),
        (i32::MAX, "214748364.7"),
        (i32::MIN, "-214748364.8"),
    ] {
        s.clear();
        assert_eq!(append_tenths(&mut s, tenths), Ok(()));
        assert_eq!(s.as_str(), text);
    }
    let mut full = buffer(&"q".repeat(252));
    assert_eq!(append_tenths(&mut full, -15), Ok(()));
    assert_eq!(&full.as_str()[250..], "qq-1.5");
    let mut tight = buffer(&"q".repeat(253));
    assert_eq!(append_tenths(&mut tight, -15), Err(Overflow));
    assert_eq!(tight.len(), 253);
    assert_eq!(append_tenths(&mut tight, 15), Ok(()));
    assert_eq!(tight.len(), 256);
}

#[test]
fn status_line_for_each_result() {
    for (result, text) in [
        (Ok(200), "http Ok 200"),
        (Ok(0), "http Ok 0"),
        (Err(HttpError::ConnectFailed), "http NG Connection failed"),
        (Err(HttpError::RecvFailed), "http NG Recv failed"),
        (Err(HttpError::SendFailed), "http NG failed"),
        (Err(HttpError::CloseFailed), "http NG failed"),
        (Err(HttpError::Unknown), "http NG failed"),
    ] {
        let mut line = buffer("");
        assert_eq!(write_status_line(result, &mut line), Ok(()));
        assert_eq!(line.as_str(), text);
    }
    let mut line = buffer(&"q".repeat(246));
    assert_eq!(write_status_line(Ok(200), &mut line), Err(Overflow));
    assert_eq!(line.len(), 246);
    assert_eq!(write_status_line(Ok(20), &mut line), Ok(()));
    assert!(line.as_str().ends_with("qhttp Ok 20"));
}

#[test]
fn readings_are_shown_on_three_lines() {
    let mut panel = buffer("Hello\n");
    assert_eq!(write_readings(249, 500, 198, &mut panel), Ok(()));
    assert_eq!(
        panel.as_str(),
        "Hello\n sauna temp : 24.9 C\n sauna humid: 50.0 %\n water bath : 19.8 C\n"
    );
    let mut full = buffer(&"q".repeat(200));
    assert_eq!(write_readings(249, 500, 198, &mut full), Err(Overflow));
    assert_eq!(full.len(), 200);
}

#[test]
fn overflowing_append_changes_nothing() {
    let filled = "q".repeat(254);
    let mut s = buffer(&filled);
    assert_eq!(append_decimal(&mut s, 123), Err(Overflow));
    assert_eq!(s.as_str(), filled);
    assert_eq!(s.len(), 254);
    assert_eq!(append_text(&mut s, "abc"), Err(Overflow));
    assert_eq!(s.as_str(), filled);
    assert_eq!(append_decimal(&mut s, 42), Ok(()));
    assert_eq!(s.len(), 256);
    assert_eq!(append_text(&mut s, ""), Ok(()));
    assert_eq!(append_text(&mut s, "x"), Err(Overflow));
    assert_eq!(append_decimal(&mut s, 0), Err(Overflow));
    assert!(s.as_str().ends_with("qq42"));
}

#[test]
fn one_cycle_without_water_probe() {
    let mut sht = SHT3X::new(0x44);
    sht.measure(Some([0x66, 0x3A, 0x00, 0x80, 0x00, 0x00])).unwrap();
    let readings = SensorReadings {
        ambient_temp: sht.get_temp(),
        ambient_humidity: sht.get_humid(),
        water_temp: DUMMY_WATER_TEMP,
    };
    assert_eq!(readings.data(), [198, 249, 500]);
    let mut msg = buffer("");
    create_request_for_ambient(12345, "123456789", readings.data(), &mut msg).unwrap();
    let body = "{\"writeKey\":\"123456789\",\"d1\":\"19.8\",\"d2\":\"24.9\",\"d3\":\"50.0\"}\n";
    assert!(msg.as_str().ends_with(body));
    assert!(msg.as_str().contains("Content-Length: 61\r\n\r\n"));

    let mut sent = String::new();
    let mut sends = 0;
    let mut answered = false;
    let endpoint = Endpoint { ipv4: 0x3BCE4136, port: 0x5000 };
    let (post, action) = HttpPost::new(endpoint, msg.len());
    assert_eq!(action, Action::Connect { endpoint, timeout: 4_000_000 });
    let (mut post, mut action) = post.step(Event::Connected(true));
    let result = loop {
        (post, action) = match action {
            Action::Send { start, end } => {
                assert!(end - start <= 40);
                sent.push_str(&msg.as_str()[start..end]);
                sends += 1;
                post.step(Event::Sent(true))
            }
            Action::Recv => {
                let data = if answered {
                    None
                } else {
                    Some("HTTP/1.1 200 OK\r\nContent-Length: 2\r\n\r\nok")
                };
                answered = true;
                post.step(Event::Received(data))
            }
            Action::Close => post.step(Event::Closed(true)),
            Action::Connect { .. } => panic!("connected twice"),
            Action::Done(result) => break result,
        };
    };
    assert_eq!(result, Ok(200));
    assert_eq!(sent, msg.as_str());
    assert_eq!(sends, (msg.len() + 39) / 40);
    assert_eq!(post.body_length(), Some(2));
}
