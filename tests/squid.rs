use chrono::{TimeZone, Utc};
use penguin::squid::{
    log_file_kind, parse_u64, proxy_schedule_action, proxy_should_be_up, state_from_word, ActiveState, LogEntry,
    LogError, LogField, LogFileKind, ServiceStatus,
};

#[test]
fn check_parse() -> Result<(), LogError> {
    let log_line = "2023-10-04T00:14:09.000-0700   1374 192.168.1.224 192.168.1.224 TCP_TUNNEL/200 10630 CONNECT weather-data.apple.com:443 - HIER_DIRECT/weather-data.apple.com -";

    let entry = LogEntry::parse(log_line)?;

    let date = Utc.with_ymd_and_hms(2023, 10, 4, 7, 14, 9).unwrap().timestamp_millis();
    let expected = LogEntry {
        date,
        response_time_millis: 1374,
        client_ip: "192.168.1.224".to_owned(),
        client_fqdn: "192.168.1.224".to_owned(),
        status_code: "TCP_TUNNEL/200".to_owned(),
        request_size_bytes: 10630,
        request_method: "CONNECT".to_owned(),
        request_url: "weather-data.apple.com:443".to_owned(),
        username: "-".to_owned(),
        peer_fqdn: "HIER_DIRECT/weather-data.apple.com".to_owned(),
        mime_type: "-".to_owned(),
    };

    assert!(expected == entry);

    Ok(())
}

#[test]
fn check_status_active() {
    let output = r#"
    ● squid.service - Squid Web Proxy Server
     Loaded: loaded (/lib/systemd/system/squid.service; enabled; vendor preset: enabled)
     Active: active (running) since Mon 2024-03-04 23:28:53 PST; 2min 20s ago
       Docs: man:squid(8)
    Process: 4196 ExecStartPre=/usr/sbin/squid --foreground -z (code=exited, status=0/SUCCESS)
   Main PID: 4200 (squid)
      Tasks: 4 (limit: 1069)
     Memory: 16.9M
        CPU: 74ms
     CGroup: /system.slice/squid.service
             ├─4200 /usr/sbin/squid --foreground -sYC
             ├─4202 "(squid-1)" --kid squid-1 --foreground -sYC
             ├─4203 "(logfile-daemon)" /var/log/squid/access.log
             └─4204 "(pinger)"

  Notice: journal has been rotated since unit was started, output may be incomplete.
    "#;

    let status = ServiceStatus::from_output(output);
    assert_eq!(status.active, ActiveState::Active);
}

#[test]
fn check_status_inactive() {
    let output = r#"
    ○ squid.service - Squid Web Proxy Server
    Loaded: loaded (/lib/systemd/system/squid.service; enabled; vendor preset: enabled)
    Active: inactive (dead) since Mon 2024-03-04 23:48:11 PST; 13s ago
      Docs: man:squid(8)
   Process: 4537 ExecStartPre=/usr/sbin/squid --foreground -z (code=exited, status=0/SUCCESS)
   Process: 4540 ExecStart=/usr/sbin/squid --foreground -sYC (code=exited, status=0/SUCCESS)
  Main PID: 4540 (code=exited, status=0/SUCCESS)
       CPU: 107ms

Mar 04 23:48:11 ambitious-mealworm squid[4542]:   Finished.  Wrote 0 entries.
Mar 04 23:48:11 ambitious-mealworm squid[4542]:   Took 0.00 seconds (  0.00 entries/sec).
Mar 04 23:48:11 ambitious-mealworm squid[4542]: Logfile: closing log daemon:/var/log/squid/ac>
Mar 04 23:48:11 ambitious-mealworm squid[4542]: Logfile Daemon: closing log daemon:/var/log/s>
Mar 04 23:48:11 ambitious-mealworm squid[4542]: Open FD UNSTARTED    10 IPC UNIX STREAM Parent
Mar 04 23:48:11 ambitious-mealworm squid[4542]: Squid Cache (Version 5.7): Exiting normally.
Mar 04 23:48:11 ambitious-mealworm squid[4540]: Squid Parent: squid-1 process 4542 exited wit>
Mar 04 23:48:11 ambitious-mealworm squid[4540]: Removing PID file (/run/squid.pid)
Mar 04 23:48:11 ambitious-mealworm systemd[1]: squid.service: Deactivated successfully.
Mar 04 23:48:11 ambitious-mealworm systemd[1]: Stopped Squid Web Proxy Server.
    "#;

    let status = ServiceStatus::from_output(output);
    assert_eq!(status.active, ActiveState::Inactive);
}

#[test]
fn check_status_unknown() {
    let output = "Random stuff";
    let status = ServiceStatus::from_output(output);
    assert_eq!(status.active, ActiveState::Unknown);
}

#[test]
fn status_words() {
    assert_eq!(state_from_word("active"), ActiveState::Active);
    assert_eq!(state_from_word("deactivating"), ActiveState::Deactivating);
    assert_eq!(state_from_word("inactive"), ActiveState::Inactive);
    assert_eq!(state_from_word("failed"), ActiveState::Unknown);
}

#[test]
fn status_from_exit_code() {
    let out = "   Active: deactivating (stop) since";
    assert_eq!(ServiceStatus::from_exit(3, out).active, ActiveState::Deactivating);
    assert_eq!(ServiceStatus::from_exit(5, out).active, ActiveState::Unknown);
    assert_eq!(ServiceStatus::from_exit(-1, out).active, ActiveState::Unknown);
}

#[test]
fn log_line_errors() {
    assert_eq!(LogEntry::parse("").unwrap_err(), LogError::Missing(LogField::Date));
    assert_eq!(LogEntry::parse("yesterday 12").unwrap_err(), LogError::InvalidDate);
    assert_eq!(
        LogEntry::parse("2023-10-04T00:14:09.000-0700 x").unwrap_err(),
        LogError::InvalidNumber(LogField::ResponseTimeMillis)
    );
    assert_eq!(
        LogEntry::parse("2023-10-04T00:14:09.000-0700 5 a b c").unwrap_err(),
        LogError::Missing(LogField::RequestSizeBytes)
    );
    assert_eq!(
        LogEntry::parse("2023-10-04T00:14:09.000-0700 5 a b c 7 GET u - p").unwrap_err(),
        LogError::Missing(LogField::MimeType)
    );
}

#[test]
fn u64_parsing() {
    assert_eq!(parse_u64("0"), Some(0));
    assert_eq!(parse_u64("+17"), Some(17));
    assert_eq!(parse_u64("18446744073709551615"), Some(u64::MAX));
    assert_eq!(parse_u64("18446744073709551616"), None);
    assert_eq!(parse_u64(""), None);
    assert_eq!(parse_u64("+"), None);
    assert_eq!(parse_u64("-1"), None);
    assert_eq!(parse_u64("12a"), None);
}

#[test]
fn log_files() {
    assert_eq!(log_file_kind("access.log"), LogFileKind::Plain);
    assert_eq!(log_file_kind("access.log.1"), LogFileKind::Plain);
    assert_eq!(log_file_kind("access.log.2.gz"), LogFileKind::Gzip);
    assert_eq!(log_file_kind("cache.log"), LogFileKind::Skip);
}

#[test]
fn proxy_hours() {
    assert!(!proxy_should_be_up(6, 59));
    assert!(proxy_should_be_up(7, 0));
    assert!(proxy_should_be_up(21, 29));
    assert!(!proxy_should_be_up(21, 30));
    assert_eq!(proxy_schedule_action(12, 0, ActiveState::Inactive), Some(true));
    assert_eq!(proxy_schedule_action(23, 0, ActiveState::Active), Some(false));
    assert_eq!(proxy_schedule_action(12, 0, ActiveState::Active), None);
    assert_eq!(proxy_schedule_action(3, 0, ActiveState::Unknown), None);
}
