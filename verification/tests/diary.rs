use fosnie::clock::CalendarDate;
use fosnie::http::diary::{
    add_closure, appointment_out, appointment_page, appointments, book, booked, cancel, closures_out, parse_date,
    remove_closure, requested_start, whose, AppointmentQuery, AppointmentRow, ClosureRow,
    NewAppointment, NewClosure, Opening, SetDiary, StoredDiary, Whose,
};
use fosnie::{AppError, AuthContext, PlatformRole};

fn ctx(id: Option<u128>, admin: bool) -> AuthContext {
    AuthContext {
        user_id: id,
        role: PlatformRole::User,
        admin,
        break_glass: false,
        mfa_enroll_only: false,
    }
}

fn told<T>(r: Result<T, AppError>) -> String {
    match r {
        Err(AppError::Validation(m)) => m,
        Err(AppError::NotFound(m)) => m,
        Err(AppError::Conflict(m)) => m,
        _ => panic!("not refused"),
    }
}

fn diary(hours: Vec<Opening>) -> SetDiary {
    SetDiary {
        owner_user_id: None,
        timezone: "Europe/London".into(),
        slot_minutes: 30,
        lead_minutes: 60,
        horizon_days: 14,
        enabled: true,
        hours,
    }
}

fn hours(weekday: i16, opens_minute: i32, closes_minute: i32) -> Opening {
    Opening { weekday, opens_minute, closes_minute }
}

#[test]
fn opening_hours_do_not_overlap() {
    let me = ctx(Some(7), false);
    let ok = vec![hours(0, 540, 720), hours(0, 780, 1020), hours(1, 540, 1020)];
    let mut stored = StoredDiary {
        row: None,
        hours: vec![hours(3, 1, 2)],
        closures: vec![ClosureRow { closed_on: CalendarDate { year: 2026, month: 1, day: 1 }, note: None }],
    };
    assert_eq!(fosnie::http::diary::set(&me, &diary(ok), true, &mut stored).unwrap(), 7);
    assert_eq!((stored.hours[0].weekday, stored.closures.len()), (0, 1));
    let asked = diary(Vec::new());
    let kept = stored.hours.len();
    let q = Whose { owner_user_id: None };
    assert!(fosnie::http::diary::set(&me, &asked, false, &mut stored).is_err());
    assert_eq!(stored.hours.len(), kept);
    let d = fosnie::http::diary::get(&me, &q, stored.row.take(), Vec::new(), Vec::new()).unwrap().unwrap();
    assert_eq!((d.timezone, d.slot_minutes), (asked.timezone, asked.slot_minutes));
    assert_eq!(
        told(fosnie::http::diary::set(&me, &diary(vec![hours(0, 540, 720), hours(0, 700, 800)]), true, &mut stored)),
        "two opening periods on one day overlap"
    );
    assert_eq!(
        told(fosnie::http::diary::set(&me, &diary(vec![hours(7, 540, 720)]), true, &mut stored)),
        "a weekday runs from 0 (Monday) to 6"
    );
    assert!(fosnie::http::diary::set(&me, &diary(vec![hours(0, 720, 540)]), true, &mut stored).is_err());
    assert!(fosnie::http::diary::set(&me, &diary(Vec::new()), false, &mut stored).is_err());
}

#[test]
fn a_diary_is_its_owner_s() {
    assert_eq!(whose(&ctx(Some(7), false), None).unwrap(), 7);
    assert_eq!(told(whose(&ctx(Some(7), false), Some(8))), "no such diary");
    assert_eq!(whose(&ctx(Some(7), true), Some(8)).unwrap(), 8);
}

#[test]
fn dates_are_read_as_they_are_written() {
    let d = parse_date("2024-02-29").unwrap();
    assert_eq!(d, CalendarDate { year: 2024, month: 2, day: 29 });
    for bad in ["2023-02-29", "2024-13-01", "2024-1", "today", ""] {
        assert_eq!(told(parse_date(bad)), "a date is written as YYYY-MM-DD");
    }
    let out = closures_out(vec![ClosureRow { closed_on: d, note: None }]);
    assert_eq!(out[0].closed_on, "2024-02-29");
    let body = NewClosure { owner_user_id: None, closed_on: "2024-12-25".into(), note: None };
    assert_eq!(add_closure(&ctx(Some(7), false), &body).unwrap().on.month, 12);
    assert_eq!(remove_closure(&ctx(Some(7), false), "2024-12-25", None).unwrap().0, 7);
}

fn asked(starts_at: &str, name: &str) -> NewAppointment {
    NewAppointment {
        owner_user_id: None,
        starts_at: starts_at.into(),
        caller_name: name.into(),
        contact: None,
        subject: "Will".into(),
    }
}

#[test]
fn an_appointment_takes_a_slot() {
    let me = ctx(Some(7), false);
    let b = book(&me, &asked("1970-01-01T01:00:00+01:00", " Ann "), Some(30), true).unwrap();
    assert_eq!((b.starts_at, b.ends_at), (0, 30 * 60 * 1_000_000_000));
    assert_eq!(b.caller_name, "Ann");
    assert_eq!(
        told(book(&me, &asked("1970-01-01T01:00:00Z", "Ann"), None, true)),
        "this account keeps no diary, or it is switched off"
    );
    assert_eq!(
        told(requested_start(&asked("tomorrow", "Ann"))),
        "a time is written in full, as an instant"
    );
    assert_eq!(
        told(book(&me, &asked("1970-01-01T01:00:00Z", " "), Some(30), true)),
        "an appointment needs a name and a subject"
    );
    assert!(book(&me, &asked("1970-01-01T01:00:00Z", "Ann"), Some(30), false).is_err());
    assert_eq!(told(booked(0)), "that time is already taken");
    assert_eq!(told(cancel(&me, Some(8), true)), "no such appointment");
    assert_eq!(cancel(&me, Some(7), true).unwrap(), 7);
}

#[test]
fn a_page_of_appointments_is_bounded() {
    let q = AppointmentQuery { owner_user_id: None, booked_only: None, limit: Some(100_000) };
    let p = appointment_page(&ctx(Some(7), false), &q).unwrap();
    assert_eq!(p.owner, 7);
    assert!(p.limit < 100_000);
    let row = |id: u128, status: &str| AppointmentRow {
        id,
        status: status.into(),
        starts_at: 0,
        ends_at: 1_000_000_000,
        reference: "r".into(),
        caller_name: "n".into(),
        caller_e164: "e".into(),
        contact: None,
        subject: "s".into(),
        chat_id: None,
        timezone: None,
    };
    let rows = || vec![(7, row(1, "booked")), (8, row(2, "booked")), (7, row(3, "cancelled")), (7, row(4, "booked"))];
    let ids = |booked_only: Option<bool>, limit: i64| -> Vec<u128> {
        let q = AppointmentQuery { owner_user_id: None, booked_only, limit: Some(limit) };
        let found = appointments(&ctx(Some(7), false), &q, rows()).unwrap();
        found.iter().map(|a| a.id).collect()
    };
    assert_eq!(ids(None, 9), vec![1, 4]);
    assert_eq!(ids(Some(false), 9), vec![1, 3, 4]);
    assert_eq!(ids(Some(false), 2), vec![1, 3]);
    let later = vec![(7, AppointmentRow { starts_at: 9, ..row(1, "booked") }), (7, row(2, "booked"))];
    let one = AppointmentQuery { owner_user_id: None, booked_only: None, limit: Some(1) };
    assert_eq!(appointments(&ctx(Some(7), false), &one, later).unwrap()[0].id, 2);
    let other = AppointmentQuery { owner_user_id: Some(8), booked_only: None, limit: None };
    assert!(appointments(&ctx(Some(7), false), &other, rows()).is_err());
    let out = appointment_out(row(1, "booked"));
    assert_eq!(out.ends_at, "1970-01-01T00:00:01Z");
}
