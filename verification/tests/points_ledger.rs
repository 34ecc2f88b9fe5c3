use hodlers::hodlers::{Hodlers, HodlersError, PointsCredit};

// Storage of one trader's record, as the contract keeps it.
fn credit(stored: &mut Option<i128>, delta: i128) -> Result<i128, HodlersError> {
    let c = Hodlers::add_points(*stored, delta)?;
    *stored = Some(c.next);
    Ok(c.next)
}

#[test]
fn starts_at_zero() {
    let stored: Option<i128> = None;
    assert_eq!(Hodlers::points_of(stored), 0);
}

#[test]
fn add_and_subtract_points() {
    let mut stored: Option<i128> = None;
    assert_eq!(credit(&mut stored, 100), Ok(100));
    assert_eq!(credit(&mut stored, 50), Ok(150));
    assert_eq!(credit(&mut stored, -30), Ok(120));
    assert_eq!(Hodlers::points_of(stored), 120);
}

#[test]
fn add_points_overflow_returns_error() {
    let mut stored: Option<i128> = None;
    credit(&mut stored, i128::MAX).unwrap();
    let result = credit(&mut stored, 1);
    assert_eq!(result, Err(HodlersError::Overflow));
    assert_eq!(stored, Some(i128::MAX));
}

#[test]
fn add_points_underflow_returns_error() {
    let mut stored: Option<i128> = None;
    credit(&mut stored, i128::MIN).unwrap();
    let result = credit(&mut stored, -1);
    assert_eq!(result, Err(HodlersError::Underflow));
}

#[test]
fn first_credit_marks_new_trader() {
    assert_eq!(Hodlers::add_points(None, 0), Ok(PointsCredit { next: 0, first_time: true }));
    assert_eq!(Hodlers::add_points(Some(0), 5), Ok(PointsCredit { next: 5, first_time: false }));
    assert_eq!(Hodlers::add_points(Some(-10), -20), Ok(PointsCredit { next: -30, first_time: false }));
}

#[test]
fn all_points_pairs_traders_with_totals() {
    let traders = vec!["GA".to_string(), "GB".to_string(), "GC".to_string()];
    let stored = vec![Some(120), None, Some(-7)];
    let all = Hodlers::all_points(&traders, &stored);
    assert_eq!(all.len(), 3);
    assert_eq!((all[0].trader.as_str(), all[0].points), ("GA", 120));
    assert_eq!((all[1].trader.as_str(), all[1].points), ("GB", 0));
    assert_eq!((all[2].trader.as_str(), all[2].points), ("GC", -7));
    assert!(Hodlers::all_points(&vec![], &vec![]).is_empty());
}

#[test]
fn history_lists_credited_traders_once_with_totals() {
    // storage: per-trader records and the list of traders in first-credit order
    let mut records: Vec<(String, i128)> = Vec::new();
    let mut traders: Vec<String> = Vec::new();
    let calls: Vec<(&str, i128)> =
        vec![("GB", 5), ("GA", i128::MIN), ("GA", -1), ("GB", -2), ("GC", 7), ("GA", 3), ("GB", 1)];
    for (t, d) in calls {
        let stored = records.iter().find(|(n, _)| n == t).map(|(_, p)| *p);
        if let Ok(c) = Hodlers::add_points(stored, d) {
            match records.iter_mut().find(|(n, _)| n == t) {
                Some(r) => r.1 = c.next,
                None => records.push((t.to_string(), c.next)),
            }
            if c.first_time {
                traders.push(t.to_string());
            }
        }
    }
    let stored: Vec<Option<i128>> =
        traders.iter().map(|t| records.iter().find(|(n, _)| n == t).map(|(_, p)| *p)).collect();
    let all = Hodlers::all_points(&traders, &stored);
    let listed: Vec<(&str, i128)> = all.iter().map(|tp| (tp.trader.as_str(), tp.points)).collect();
    assert_eq!(listed, vec![("GB", 4), ("GA", i128::MIN + 3), ("GC", 7)]);
}
