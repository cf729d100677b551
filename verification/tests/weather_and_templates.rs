//! Tests of the weather projection, the keyed store writes, and the
//! template boundary.

use aurora_alert::ParseError;
use aurora_alert::RenderError;
use aurora_alert::datetime::DateTimeUtc;
use aurora_alert::email::{AlertLevel, build_alert_email, run_alert_cycle};
use aurora_alert::store::Store;
use aurora_alert::templates::Template;
use aurora_alert::weather::{Location, Weather, WeatherBody};

fn some_instant() -> DateTimeUtc {
    DateTimeUtc { year: 2023, month: 5, day: 8, hour: 19, minute: 30, second: 32 }
}

fn sample_body() -> WeatherBody {
    WeatherBody {
        clouds_all: 42,
        descriptions: vec![String::from("clear sky"), String::from("mist")],
        dt: 1_690_000_000,
        id: 2_649_169,
    }
}

#[test]
fn weather_projection_exact_fields() {
    let w = Weather::from_body(&sample_body(), 1_700_000_000).unwrap();
    assert_eq!(w.cloud_cover, 42);
    assert_eq!(w.description, "clear sky");
    assert_eq!(w.location_id, 2_649_169);
    assert_eq!(w.updated_at, 1_690_000_000);
    assert_eq!(w.last_polled, 1_700_000_000);
}

#[test]
fn weather_projection_rejects_empty_descriptions() {
    let body = WeatherBody { clouds_all: 42, descriptions: Vec::new(), dt: 1, id: 2 };
    assert_eq!(
        Weather::from_body(&body, 0).unwrap_err(),
        ParseError::MissingWeatherDescription
    );
}

#[test]
fn weather_projection_now_stamps_poll_instant() {
    let w = Weather::from_body_now(&sample_body()).unwrap();
    assert_eq!(w.cloud_cover, 42);
    assert_eq!(w.location_id, 2_649_169);
    assert_eq!(w.updated_at, 1_690_000_000);
    assert!(w.last_polled >= 0);
}

#[test]
fn locations_carry_fixed_ids() {
    assert_eq!(Location::FortWilliam.id(), 2_649_169);
    assert_eq!(Location::SpeanBridge.id(), 2_637_248);
    let all = Location::all();
    assert_eq!(all.len(), 2);
    assert_eq!(all[0], Location::FortWilliam);
    assert_eq!(all[1], Location::SpeanBridge);
}

#[test]
fn upsert_weather_overwrites_by_key() {
    let mut store = Store::init(some_instant());
    let first = Weather::from_body(&sample_body(), 10).unwrap();
    store.upsert_weather(first);
    let other = WeatherBody {
        clouds_all: 7,
        descriptions: vec![String::from("overcast clouds")],
        dt: 1_690_000_500,
        id: 2_637_248,
    };
    store.upsert_weather(Weather::from_body(&other, 11).unwrap());
    assert_eq!(store.weather.len(), 2);

    // A later reading for the first location replaces its row in place.
    let updated = WeatherBody {
        clouds_all: 90,
        descriptions: vec![String::from("light rain")],
        dt: 1_690_001_000,
        id: 2_649_169,
    };
    store.upsert_weather(Weather::from_body(&updated, 12).unwrap());
    assert_eq!(store.weather.len(), 2);
    let row = store.weather.iter().find(|w| w.location_id == 2_649_169).unwrap();
    assert_eq!(row.cloud_cover, 90);
    assert_eq!(row.description, "light rain");
    assert_eq!(row.last_polled, 12);
    let other_row = store.weather.iter().find(|w| w.location_id == 2_637_248).unwrap();
    assert_eq!(other_row.cloud_cover, 7);
}

fn engine_with_alert_template() -> tera::Tera {
    let mut engine = tera::Tera::new();
    engine.add_raw_template("alert.html", "<p>Alert level: {{ alert_level }}</p>").unwrap();
    engine
}

#[test]
fn template_renders_alert_level() {
    let engine = engine_with_alert_template();
    let body = Template::Alert.render("red", &engine).unwrap();
    assert_eq!(body, "<p>Alert level: red</p>");
}

#[test]
fn template_render_failure_is_reported() {
    let engine = tera::Tera::new();
    assert_eq!(
        Template::Alert.render("red", &engine).unwrap_err(),
        RenderError::TemplateFailure
    );
}

#[test]
fn run_alert_cycle_renders_and_logs() {
    let engine = engine_with_alert_template();
    let mut store = Store::init(some_instant());
    store.update_current_activity(250_000, some_instant(), 1_000);

    let sent = run_alert_cycle(&mut store, AlertLevel::Green, &engine, "someone@example.com", 50)
        .unwrap()
        .unwrap();
    assert_eq!(sent.subject, "Aurora alert level is now Red");
    assert_eq!(sent.body, "<p>Alert level: red</p>");
    assert_eq!(store.alerts.len(), 1);
    assert_eq!(store.alerts[0].sent_at, 50);

    // Within the cooldown the cycle is a no-op: no render, no log growth.
    let again = run_alert_cycle(&mut store, AlertLevel::Green, &engine, "someone@example.com", 55)
        .unwrap();
    assert!(again.is_none());
    assert_eq!(store.alerts.len(), 1);
}

#[test]
fn run_alert_cycle_render_failure_leaves_log_untouched() {
    let engine = tera::Tera::new();
    let mut store = Store::init(some_instant());
    store.update_current_activity(250_000, some_instant(), 1_000);

    let r = run_alert_cycle(&mut store, AlertLevel::Green, &engine, "someone@example.com", 50);
    assert_eq!(r.unwrap_err(), RenderError::TemplateFailure);
    assert_eq!(store.alerts.len(), 0);
}

#[test]
fn build_alert_email_assembles_notification() {
    let engine = engine_with_alert_template();
    let email = build_alert_email(&engine, "someone@example.com", AlertLevel::Red).unwrap();
    assert_eq!(email.to_address, "someone@example.com");
    assert_eq!(email.subject, "Aurora alert level is now Red");
    assert_eq!(email.body, "<p>Alert level: red</p>");
}
