use std::collections::BTreeSet;

use pgs_tonemap::names::has_extension;
use pgs_tonemap::pipeline::{
    advance, failed_items, start, ItemState, Outcome, PipelineError, Stage,
};

/// An in-memory stand-in for the external converter and the filesystem.
struct FakeWorld {
    work_dirs: BTreeSet<String>,
    outputs: BTreeSet<String>,
    failing_tool: Option<String>,
}

impl FakeWorld {
    fn perform(&mut self, stage: Stage, index: usize, file: &str) -> Result<(), PipelineError> {
        let dir = format!("sub{}", index);
        match stage {
            Stage::Extract => {
                self.work_dirs.insert(dir);
                if self.failing_tool.as_deref() == Some(file) {
                    Err(PipelineError::ExternalTool)
                } else {
                    Ok(())
                }
            }
            Stage::Tonemap => Ok(()),
            Stage::Merge => {
                self.outputs.insert(file.to_string());
                Ok(())
            }
            Stage::Cleanup => {
                self.work_dirs.remove(&dir);
                Ok(())
            }
        }
    }
}

fn run_batch(world: &mut FakeWorld, files: &[&str]) -> Vec<ItemState> {
    let mut states = Vec::new();
    for (index, file) in files.iter().enumerate() {
        let mut state = start();
        while let ItemState::Running { stage } = state {
            let event = world.perform(stage, index, file);
            state = advance(state, event);
        }
        states.push(state);
    }
    states
}

#[test]
fn three_files_all_succeed() {
    let mut world = FakeWorld {
        work_dirs: BTreeSet::new(),
        outputs: BTreeSet::new(),
        failing_tool: None,
    };
    let files = ["a.sup", "b.sup", "c.sup"];
    let states = run_batch(&mut world, &files);
    assert_eq!(world.outputs.len(), 3);
    assert!(world.work_dirs.is_empty());
    assert!(failed_items(&states).is_empty());
    for s in &states {
        assert_eq!(*s, ItemState::Finished { outcome: Outcome::Succeeded { cleaned: true } });
    }
}

#[test]
fn one_failing_tool_leaves_others() {
    let mut world = FakeWorld {
        work_dirs: BTreeSet::new(),
        outputs: BTreeSet::new(),
        failing_tool: Some("b.sup".to_string()),
    };
    let files = ["a.sup", "b.sup", "c.sup"];
    let states = run_batch(&mut world, &files);
    assert_eq!(world.outputs.len(), 2);
    assert!(!world.outputs.contains("b.sup"));
    assert_eq!(failed_items(&states), vec![1]);
    assert_eq!(
        states[1],
        ItemState::Finished {
            outcome: Outcome::Failed { stage: Stage::Extract, error: PipelineError::ExternalTool }
        }
    );
    // The failed item's working directory is left for inspection.
    assert_eq!(world.work_dirs.len(), 1);
}

#[test]
fn stages_run_in_order() {
    let mut s = start();
    assert_eq!(s, ItemState::Running { stage: Stage::Extract });
    s = advance(s, Ok(()));
    assert_eq!(s, ItemState::Running { stage: Stage::Tonemap });
    s = advance(s, Ok(()));
    assert_eq!(s, ItemState::Running { stage: Stage::Merge });
    s = advance(s, Ok(()));
    assert_eq!(s, ItemState::Running { stage: Stage::Cleanup });
}

#[test]
fn image_failure_stops_item() {
    let s = advance(advance(start(), Ok(())), Err(PipelineError::Image));
    let failed =
        ItemState::Finished { outcome: Outcome::Failed { stage: Stage::Tonemap, error: PipelineError::Image } };
    assert_eq!(s, failed);
    assert_eq!(advance(s, Ok(())), failed);
}

#[test]
fn cleanup_failure_keeps_success() {
    let mut s = start();
    for _ in 0..3 {
        s = advance(s, Ok(()));
    }
    s = advance(s, Err(PipelineError::Io));
    assert_eq!(s, ItemState::Finished { outcome: Outcome::Succeeded { cleaned: false } });
    assert!(failed_items(&vec![s]).is_empty());
}

#[test]
fn extensions() {
    assert!(has_extension("a.sup", "sup"));
    assert!(has_extension("x.y.png", "png"));
    assert!(!has_extension("x.png.sup", "png"));
    assert!(!has_extension(".sup", "sup"));
    assert!(!has_extension("sup", "sup"));
    assert!(!has_extension("a.SUP", "sup"));
    assert!(has_extension("a.", ""));
    assert!(!has_extension("..", ""));
}
