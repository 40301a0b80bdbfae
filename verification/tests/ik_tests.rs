use crane_sim::ik::{ikcalc_2rmanip, IkError};

#[test]
fn test_ikcalc_2rmanip_basic() {
    let l1 = 1_000_000;
    let l2 = 1_000_000;
    let x = 1_000_000;
    let y = 1_000_000;

    assert_eq!(
        ikcalc_2rmanip(x, y, l1, l2),
        Ok(((0, 90_000_000), (90_000_000, -90_000_000)))
    );
}

#[test]
fn test_ikcalc_unreachable_far() {
    // A target three link-lengths out: farther than the two links reach.
    let r = ikcalc_2rmanip(3_000_000, 0, 1_000_000, 1_000_000);
    assert_eq!(r, Err(IkError::Unreachable));
}

#[test]
fn test_ikcalc_unreachable_message() {
    let r = ikcalc_2rmanip(3_000_000, 0, 1_000_000, 1_000_000);
    assert_eq!(r.unwrap_err().message(), "No solution: unreachable position.");
}

#[test]
fn test_ikcalc_full_extension_boundary() {
    // Exactly at the rim of the annulus: the arm fully stretched.
    let r = ikcalc_2rmanip(2_000_000, 0, 1_000_000, 1_000_000);
    assert_eq!(r, Ok(((0, 0), (0, 0))));
}

#[test]
fn test_ikcalc_straight_up() {
    // Target straight along the second axis at the full reach of both
    // links: the first solution points the shoulder up with a straight
    // elbow.
    let r = ikcalc_2rmanip(0, 2_000_000, 1_000_000, 1_000_000);
    assert_eq!(r, Ok(((90_000_000, 0), (90_000_000, 0))));
}

#[test]
fn test_ikcalc_huge_coordinates_fail_cleanly() {
    let r = ikcalc_2rmanip(i64::MAX, i64::MIN, 1_000_000_000_000, 1_000_000_000_000);
    assert_eq!(r, Err(IkError::Unreachable));
}
