use raytracer::material::{dielectric_branch, Branch};
use raytracer::transport::{Event, Outcome, Path};

#[test]
fn exhausted_path_is_black() {
    for event in [Event::Miss, Event::Absorbed, Event::Scattered] {
        let mut p = Path::new(0);
        assert!(p.exhausted());
        assert_eq!(p.advance(event), Outcome::Black);
        assert_eq!(p.depth, 0);
    }
    let mut neg = Path::new(-3);
    assert_eq!(neg.advance(Event::Miss), Outcome::Black);
}

#[test]
fn path_steps() {
    let mut p = Path::new(2);
    assert!(!p.exhausted());
    assert_eq!(p.advance(Event::Scattered), Outcome::Continue);
    assert_eq!(p.depth, 1);
    let mut q = p;
    assert_eq!(q.advance(Event::Miss), Outcome::Sky);
    assert_eq!(q.depth, 1);
    let mut r = p;
    assert_eq!(r.advance(Event::Absorbed), Outcome::Black);
    assert_eq!(p.advance(Event::Scattered), Outcome::Continue);
    assert!(p.exhausted());
    assert_eq!(p.advance(Event::Miss), Outcome::Black);
}

#[test]
fn bounces_stop_at_budget() {
    let mut p = Path::new(50);
    let mut n = 0;
    while p.advance(Event::Scattered) == Outcome::Continue {
        n += 1;
    }
    assert_eq!(n, 50);
}

#[test]
fn total_internal_reflection_always_reflects() {
    assert_eq!(dielectric_branch(true, false), Branch::Reflect);
    assert_eq!(dielectric_branch(true, true), Branch::Reflect);
}

#[test]
fn dielectric_draw_decides_otherwise() {
    assert_eq!(dielectric_branch(false, true), Branch::Reflect);
    assert_eq!(dielectric_branch(false, false), Branch::Refract);
}
