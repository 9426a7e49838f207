use bevy_erm::plugin::EntityRelationMapperPlugin;
use bevy_erm::schedule::{
    evaluate_and_fold_conditions, Condition, ExecutorKind, LazyLoadedExecutor, System, SystemSchedule,
};

struct Logging {
    name: &'static str,
    deferred: Option<String>,
}

impl System<Vec<String>> for Logging {
    fn run(&mut self, world: &mut Vec<String>) {
        world.push(format!("run {}", self.name));
        self.deferred = Some(format!("apply {} after {}", self.name, world.len()));
    }

    fn apply_deferred(&mut self, world: &mut Vec<String>) {
        if let Some(line) = self.deferred.take() {
            world.push(line);
        }
    }
}

struct Verdict(bool);

impl Condition<u32> for Verdict {
    fn run(&mut self, world: &mut u32) -> bool {
        *world += 1;
        self.0
    }
}

#[test]
fn the_executor_is_the_simple_kind_and_keeps_no_state() {
    let mut executor = LazyLoadedExecutor::new();
    assert_eq!(executor.kind(), ExecutorKind::Simple);
    executor.set_apply_final_deferred(true);
    executor.init(&SystemSchedule::<Logging> { systems: vec![] });
    assert_eq!(executor.kind(), ExecutorKind::Simple);
    let _plugin = EntityRelationMapperPlugin;
    let _default = LazyLoadedExecutor::default();
}

#[test]
fn systems_run_in_order_and_what_they_deferred_is_applied_at_once() {
    let mut executor = LazyLoadedExecutor::new();
    let mut schedule = SystemSchedule {
        systems: vec![
            Logging { name: "a", deferred: None },
            Logging { name: "b", deferred: None },
            Logging { name: "c", deferred: None },
        ],
    };
    let mut world: Vec<String> = vec![];
    executor.run(&mut schedule, &mut world);
    assert_eq!(
        world,
        vec!["run a", "apply a after 1", "run b", "apply b after 3", "run c", "apply c after 5"]
    );
    assert!(schedule.systems.iter().all(|s| s.deferred.is_none()));
}

#[test]
fn an_empty_schedule_changes_nothing() {
    let mut executor = LazyLoadedExecutor::new();
    let mut schedule: SystemSchedule<Logging> = SystemSchedule { systems: vec![] };
    let mut world = vec!["before".to_string()];
    executor.run(&mut schedule, &mut world);
    assert_eq!(world, vec!["before"]);
}

#[test]
fn every_condition_is_evaluated_even_after_one_failed() {
    let mut world = 0u32;
    let mut conditions = vec![Verdict(true), Verdict(false), Verdict(true), Verdict(true)];
    assert!(!evaluate_and_fold_conditions(&mut conditions, &mut world));
    assert_eq!(world, 4);
    let mut conditions = vec![Verdict(true), Verdict(true)];
    assert!(evaluate_and_fold_conditions(&mut conditions, &mut world));
    assert_eq!(world, 6);
    let mut none: Vec<Verdict> = vec![];
    assert!(evaluate_and_fold_conditions(&mut none, &mut world));
    assert_eq!(world, 6);
}
