//! What crosses into C.

use finupdate::date::{from_ymd_opt, UtcTime};
use finupdate::ffi::{
    c_text, check_result, current_image_ref, current_image_title, event_fields,
    invalid_handle_fields, module_to_ffi, FinupdateEventKind, FinupdateModule,
    FinupdateModuleStatus,
};
use finupdate::orchestrator::{Module, ModuleStatus, UpdateEvent};
use finupdate::registry_client::detection::{
    date_from_bootc_output, date_told, CommandOutput, DetectEvent,
};
use finupdate::registry_client::ImageVersion;
use finupdate::service::ImageRef;

fn image() -> ImageRef {
    ImageRef {
        registry: "ghcr.io".to_string(),
        org: "projectbluefin".to_string(),
        image: "dakota".to_string(),
        tag: "latest".to_string(),
        digest: String::new(),
    }
}

fn version(name: &str) -> ImageVersion {
    let date = from_ymd_opt(2026, 5, 27).unwrap();
    ImageVersion {
        date,
        full_ref: String::new(),
        version: name.to_string(),
        kernel: String::new(),
        revision: String::new(),
        created: UtcTime { date, seconds_of_day: 0, nanos: 0 },
    }
}

#[test]
fn string_to_c_roundtrip() {
    assert_eq!(c_text("Bluefin Dakota"), "Bluefin Dakota");
}

#[test]
fn string_to_c_strips_interior_nul() {
    assert_eq!(c_text("foo\0bar"), "foobar");
    assert_eq!(c_text("\0\0"), "");
}

#[test]
fn numbers_are_those_of_the_header() {
    assert_eq!(FinupdateEventKind::Output.code(), 0);
    assert_eq!(FinupdateEventKind::ModuleStarted.code(), 1);
    assert_eq!(FinupdateEventKind::ModuleFinished.code(), 2);
    assert_eq!(FinupdateEventKind::Complete.code(), 3);
    assert_eq!(FinupdateEventKind::UpToDate.code(), 4);
    assert_eq!(FinupdateEventKind::Error.code(), 5);
    assert_eq!(FinupdateModule::Unknown.code(), 0);
    assert_eq!(module_to_ffi(Module::System).code(), 1);
    assert_eq!(module_to_ffi(Module::Flatpak).code(), 2);
    assert_eq!(module_to_ffi(Module::Brew).code(), 3);
    assert_eq!(module_to_ffi(Module::Distrobox).code(), 4);
    assert_eq!(FinupdateModuleStatus::Unknown.code(), 0);
    assert_eq!(FinupdateModuleStatus::Success.code(), 1);
    assert_eq!(FinupdateModuleStatus::UpToDate.code(), 2);
    assert_eq!(FinupdateModuleStatus::Skipped.code(), 3);
    assert_eq!(FinupdateModuleStatus::Failed.code(), 4);
}

#[test]
fn events_are_told_field_by_field() {
    let f = event_fields(&UpdateEvent::Output("a\0b".to_string()));
    assert_eq!(f.kind, FinupdateEventKind::Output);
    assert_eq!(f.module, FinupdateModule::Unknown);
    assert_eq!(f.status, FinupdateModuleStatus::Unknown);
    assert_eq!(f.exit_code, 0);
    assert_eq!(f.message.as_deref(), Some("ab"));

    let f = event_fields(&UpdateEvent::ModuleFinished(Module::Brew, ModuleStatus::Failed(3)));
    assert_eq!(f.kind, FinupdateEventKind::ModuleFinished);
    assert_eq!(f.module, FinupdateModule::Brew);
    assert_eq!(f.status, FinupdateModuleStatus::Failed);
    assert_eq!(f.exit_code, 3);
    assert!(f.message.is_none());

    let f = event_fields(&UpdateEvent::ModuleStarted(Module::System));
    assert_eq!(f.kind, FinupdateEventKind::ModuleStarted);
    assert_eq!(f.module, FinupdateModule::System);

    let f = event_fields(&UpdateEvent::Error("broken".to_string()));
    assert_eq!(f.kind, FinupdateEventKind::Error);
    assert_eq!(f.message.as_deref(), Some("broken"));
    assert!(event_fields(&UpdateEvent::Complete).message.is_none());
    assert_eq!(event_fields(&UpdateEvent::UpToDate).kind, FinupdateEventKind::UpToDate);
    assert_eq!(invalid_handle_fields().message.as_deref(), Some("invalid handle"));
}

#[test]
fn image_is_named_where_it_is_known() {
    assert_eq!(current_image_title(Some(&image())), "Bluefin Dakota");
    let titled = |org: &str, name: &str, tag: &str| {
        let mut i = image();
        i.org = org.to_string();
        i.image = name.to_string();
        i.tag = tag.to_string();
        current_image_title(Some(&i))
    };
    assert_eq!(titled("ublue-os", "bluefin-dx", "stable"), "Bluefin Stable");
    assert_eq!(titled("ublue-os", "bluefin-dx", "lts"), "Bluefin LTS");
    assert_eq!(titled("ublue-os", "bluefin-dx", "unheard-of"), "Bluefin Stable");
    assert_eq!(titled("someone", "bluefin", "stable"), "someone/bluefin");
    assert_eq!(current_image_title(None), "System Image");
    assert_eq!(
        current_image_ref(Some(&image())).as_deref(),
        Some("ghcr.io/projectbluefin/dakota:latest")
    );
    assert!(current_image_ref(None).is_none());
}

#[test]
fn check_says_one_zero_or_minus_one() {
    let booted = from_ymd_opt(2026, 5, 27);
    let before = from_ymd_opt(2026, 5, 26);
    let listed = vec![version("latest"), version("20260527")];
    assert_eq!(check_result(before, Some(&listed)), 1);
    assert_eq!(check_result(booted, Some(&listed)), 0);
    assert_eq!(check_result(booted, Some(&vec![])), 0);
    assert_eq!(check_result(booted, None), -1);
    assert_eq!(check_result(None, Some(&listed)), -1);
    assert_eq!(check_result(None, None), -1);
}

#[test]
fn check_goes_by_the_day_of_the_booted_build() {
    let on = |month: u32, day: u32| {
        let mut v = version("another name");
        v.date = from_ymd_opt(2026, month, day).unwrap();
        v
    };
    let booted = from_ymd_opt(2026, 5, 27);
    assert_eq!(check_result(booted, Some(&vec![on(4, 1)])), 0);
    assert_eq!(check_result(booted, Some(&vec![on(5, 27)])), 0);
    assert_eq!(check_result(booted, Some(&vec![on(5, 28), on(4, 1)])), 1);
    assert_eq!(check_result(booted, Some(&vec![on(4, 1), on(5, 28)])), 1);
    assert_eq!(check_result(from_ymd_opt(2026, 5, 28), Some(&vec![on(5, 28), on(4, 1)])), 0);
}

#[test]
fn status_tells_the_day_of_the_booted_build() {
    let status = |timestamp: &str| {
        format!(
            r#"{{"status":{{"booted":{{"image":{{"image":{{"image":"ghcr.io/projectbluefin/dakota:latest"}},"timestamp":{timestamp}}}}}}}}}"#
        )
    };
    let told = |timestamp: &str| date_from_bootc_output(status(timestamp).as_bytes());
    assert_eq!(told(r#""2026-05-27T04:30:00Z""#), from_ymd_opt(2026, 5, 27));
    assert_eq!(told(r#""2026-05-27T23:30:00-05:00""#), from_ymd_opt(2026, 5, 28));
    assert_eq!(told(r#""2011-11-11T11:11:11Z""#), None);
    assert_eq!(told(r#""yesterday""#), None);
    assert_eq!(told("null"), None);
    assert_eq!(date_from_bootc_output(br#"{"status":{"booted":null}}"#), None);
    assert_eq!(date_from_bootc_output(b"no document"), None);

    let listed = vec![version("20260527")];
    let check = |timestamp: &str| check_result(told(timestamp), Some(&listed));
    assert_eq!(check(r#""2026-05-27T04:30:00Z""#), 0);
    assert_eq!(check(r#""2026-05-20T04:30:00Z""#), 1);
    assert_eq!(check("null"), -1);
}

#[test]
fn failed_command_tells_no_day() {
    let out = |success: bool| {
        Some(CommandOutput {
            success,
            stdout: br#"{"status":{"booted":{"image":{"timestamp":"2026-05-27T04:30:00Z"}}}}"#.to_vec(),
        })
    };
    let day = from_ymd_opt(2026, 5, 27);
    assert_eq!(date_told(&DetectEvent::Bootc(out(true))), day);
    assert_eq!(date_told(&DetectEvent::PrivilegedBootc(out(true))), day);
    assert_eq!(date_told(&DetectEvent::Bootc(out(false))), None);
    assert_eq!(date_told(&DetectEvent::Bootc(None)), None);
    assert_eq!(date_told(&DetectEvent::OsRelease(Some("ID=x".to_string()))), None);
}
