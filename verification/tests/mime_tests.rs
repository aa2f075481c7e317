//! Tests of the owned header-field types.

use mailsync::mime::mailimf_date_time;
use mailsync::mime::mailimf_date_time_new;
use mailsync::mime::mailimf_field;
use mailsync::mime::mailimf_orig_date;
use mailsync::mime::mailimf_references;

#[test]
fn date_time_construction() {
    let dt = mailimf_date_time_new(24, 12, 2023, 18, 30, 0, -200);
    assert_eq!(
        dt,
        mailimf_date_time { day: 24, month: 12, year: 2023, hour: 18, min: 30, sec: 0, zone: -200 }
    );
    let od = mailimf_orig_date { dt_date_time: dt.clone() };
    assert_eq!(od.dt_date_time, dt);
}

#[test]
fn references_own_their_identifiers() {
    let mut refs = mailimf_references::new();
    refs.push_mid("<one@host>".to_string());
    refs.push_mid("<two@host>".to_string());
    assert_eq!(refs.mid_list, vec!["<one@host>".to_string(), "<two@host>".to_string()]);
    // A field owns its payload by value; dropping it frees everything.
    let field = mailimf_field::References(refs);
    match field {
        mailimf_field::References(r) => assert_eq!(r.mid_list.len(), 2),
        _ => unreachable!(),
    }
}
