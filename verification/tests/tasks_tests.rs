use frakt::structs::resolution::Resolution;
use frakt::tasks::{plan_fractal_tasks, FractalParams};
use frakt::utils::random_string;

fn params(kind: &str) -> FractalParams {
    FractalParams {
        fractal_type: kind.to_string(),
        resolution: Resolution { nx: 1000, ny: 1000 },
        max_iteration: 500,
    }
}

#[test]
fn plans_cover_the_grid() {
    let plans = plan_fractal_tasks(&params("mandelbrot"), 2).unwrap();
    assert_eq!(plans.len(), 4);
    let mut ids: Vec<String> = Vec::new();
    for (k, plan) in plans.iter().enumerate() {
        assert_eq!(plan.column as usize, k / 2);
        assert_eq!(plan.row as usize, k % 2);
        assert_eq!(plan.data.len(), 8);
        assert_eq!(plan.data, plan.task_id.as_bytes());
        assert_eq!(plan.id.offset, 0);
        assert_eq!(plan.id.count, 8);
        assert_eq!(plan.resolution.nx, 500);
        assert_eq!(plan.resolution.ny, 500);
        assert_eq!(plan.max_iteration, 500);
        assert!(!ids.contains(&plan.task_id));
        ids.push(plan.task_id.clone());
    }
}

#[test]
fn unknown_fractal_is_an_error() {
    let r = plan_fractal_tasks(&params("julia"), 3);
    assert_eq!(r.err(), Some("Unknown fractal type: julia".to_string()));
}

#[test]
fn no_split_no_tasks() {
    assert!(plan_fractal_tasks(&params("julia"), 0).unwrap().is_empty());
}

#[test]
fn random_strings_are_lowercase() {
    let s = random_string(32);
    assert_eq!(s.len(), 32);
    assert!(s.chars().all(|c| c.is_ascii_lowercase()));
    assert_eq!(random_string(0), "");
}

#[test]
fn planned_task_ids_read_back() {
    let plans = plan_fractal_tasks(&params("mandelbrot"), 3).unwrap();
    assert_eq!(plans.len(), 9);
    for plan in &plans {
        let id = frakt::structs::u8data::U8Data::new(plan.id.offset, plan.id.count);
        assert_eq!(frakt::listener::read_task_id(&plan.data, &id), Ok(plan.task_id.clone()));
    }
}

#[test]
fn many_planned_task_ids_are_distinct() {
    let plans = plan_fractal_tasks(&params("mandelbrot"), 20).unwrap();
    assert_eq!(plans.len(), 400);
    let mut ids: Vec<String> = plans.iter().map(|p| p.task_id.clone()).collect();
    ids.sort();
    ids.dedup();
    assert_eq!(ids.len(), 400);
    assert!(ids.iter().all(|id| id.len() == 8 && id.chars().all(|c| c.is_ascii_lowercase())));
}
