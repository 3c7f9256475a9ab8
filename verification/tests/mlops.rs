use patronus::mlops::registry::{ModelRegistry, ModelStatus, ModelType, ModelVersion, RegistryError};
use sha2::Digest;

#[test]
fn test_model_registration() {
    let mut registry = ModelRegistry::new();

    let model = ModelVersion::new("anomaly-detector", "v1.0.0", ModelType::AnomalyDetection, "alice");

    let model_id = model.id;
    registry.register_model(model).unwrap();

    let retrieved = registry.get_model(&model_id).unwrap();
    assert_eq!(retrieved.model_name, "anomaly-detector");
    assert_eq!(retrieved.version, "v1.0.0");
}

#[test]
fn test_version_tracking() {
    let mut registry = ModelRegistry::new();

    let v1 = ModelVersion::new("traffic-forecaster", "v1.0.0", ModelType::TrafficForecasting, "bob");
    registry.register_model(v1).unwrap();

    let v2 = ModelVersion::new("traffic-forecaster", "v1.1.0", ModelType::TrafficForecasting, "bob");
    registry.register_model(v2).unwrap();

    let versions = registry.get_versions("traffic-forecaster");
    assert_eq!(versions.len(), 2);

    let latest = registry.get_latest_version("traffic-forecaster").unwrap();
    assert_eq!(latest.version, "v1.1.0");
}

#[test]
fn test_deployment() {
    let mut registry = ModelRegistry::new();

    let mut model = ModelVersion::new("anomaly-detector", "v1.0.0", ModelType::AnomalyDetection, "charlie");
    model.status = ModelStatus::Validated;

    let model_id = model.id;
    registry.register_model(model).unwrap();

    registry.deploy_model(&model_id).unwrap();

    let deployed = registry.get_deployed_model(&ModelType::AnomalyDetection).unwrap();
    assert_eq!(deployed.id, model_id);
    assert_eq!(deployed.status, ModelStatus::Deployed);
}

#[test]
fn test_cannot_deploy_unvalidated() {
    let mut registry = ModelRegistry::new();

    let model = ModelVersion::new("anomaly-detector", "v1.0.0", ModelType::AnomalyDetection, "dave");

    let model_id = model.id;
    registry.register_model(model).unwrap();

    let result = registry.deploy_model(&model_id);
    assert!(result.is_err());
}

#[test]
fn test_checksum() {
    let data = b"model_weights_data";
    let model = ModelVersion::new("test-model", "v1.0.0", ModelType::AnomalyDetection, "eve").with_checksum(data);

    assert!(!model.checksum.is_empty());
    assert_eq!(model.size_bytes, data.len() as u64);
}

#[test]
fn test_tag_search() {
    let mut registry = ModelRegistry::new();

    let model1 =
        ModelVersion::new("model-1", "v1.0.0", ModelType::AnomalyDetection, "frank").with_tag("environment", "production");

    let model2 =
        ModelVersion::new("model-2", "v1.0.0", ModelType::PredictiveFailover, "frank").with_tag("environment", "staging");

    registry.register_model(model1).unwrap();
    registry.register_model(model2).unwrap();

    let prod_models = registry.search_by_tag("environment", "production");
    assert_eq!(prod_models.len(), 1);
    assert_eq!(prod_models[0].model_name, "model-1");
}

#[test]
fn checksum_is_sha256_in_lowercase_hex() {
    let m = ModelVersion::new("m", "v", ModelType::QosOptimization, "x").with_checksum(b"abc");
    assert_eq!(m.checksum, "ba7816bf8f01cfea414140de5dae2223b00361a396177a9cb410ff61f20015ad");
    let expected: String = sha2::Sha256::digest(b"other").iter().map(|b| format!("{:02x}", b)).collect();
    let n = ModelVersion::new("m", "v", ModelType::QosOptimization, "x").with_checksum(b"other");
    assert_eq!(n.checksum, expected);
    assert_eq!(n.size_bytes, 5);
}

#[test]
fn tags_replace_earlier_values() {
    let m = ModelVersion::new("m", "v", ModelType::EncryptedDpi, "x")
        .with_tag("env", "staging")
        .with_tag("team", "net")
        .with_tag("env", "production");
    assert_eq!(m.tags.len(), 2);
    let mut r = ModelRegistry::new();
    r.register_model(m).unwrap();
    assert_eq!(r.search_by_tag("env", "production").len(), 1);
    assert!(r.search_by_tag("env", "staging").is_empty());
}

#[test]
fn archiving_the_deployed_version_undeploys_it() {
    let mut r = ModelRegistry::new();
    let mut m = ModelVersion::new("a", "v1", ModelType::AnomalyDetection, "x");
    m.set_status(ModelStatus::Validated);
    let id = m.id;
    r.register_model(m).unwrap();
    assert_eq!(r.deploy_model(&id), Ok(()));
    assert_eq!(r.archive_model(&id), Ok(()));
    assert!(r.get_deployed_model(&ModelType::AnomalyDetection).is_none());
    assert_eq!(r.get_model(&id).unwrap().status, ModelStatus::Archived);
    assert_eq!(r.list_models_by_status(&ModelStatus::Archived).len(), 1);
    assert_eq!(r.deploy_model(&id), Err(RegistryError::NotValidated));
    assert_eq!(r.deploy_model(&99u128), Err(RegistryError::ModelNotFound));
    assert_eq!(r.update_status(&99u128, ModelStatus::Failed), Err(RegistryError::ModelNotFound));
    assert_eq!(RegistryError::NotValidated.message(), "Model must be validated before deployment");
}

use patronus::mlops::pipeline::{PipelineError, PipelineStage, PipelineStatus, RunAction, StageResult, TrainingPipeline, PipelineRun};

#[derive(Clone, Debug, PartialEq)]
struct Config {
    model_name: String,
    version: String,
    training_data_path: String,
}

fn config(name: &str, version: &str) -> Config {
    Config { model_name: name.to_string(), version: version.to_string(), training_data_path: String::new() }
}

type Metrics = Vec<(String, u64)>;

/// Drives a run to its end, executing each stage with `execute`.
fn drive(
    pipeline: &mut TrainingPipeline<Config, Metrics>,
    id: u128,
    execute: &dyn Fn(PipelineStage) -> Result<Metrics, String>,
) -> Result<(), String> {
    let mut action = pipeline.start_run(&id, 100).unwrap();
    let mut now: i64 = 100;
    loop {
        match action {
            RunAction::Execute(i) => {
                let stage = pipeline.get_run(&id).unwrap().stages[i].stage;
                now += 1;
                action = pipeline.finish_stage(&id, execute(stage), now).unwrap();
            }
            RunAction::Done => return Ok(()),
            RunAction::Failed(m) => return Err(m),
        }
    }
}

#[test]
fn test_pipeline_run_creation() {
    let mut c = config("test-model", "v1.0.0");
    c.training_data_path = "/data/training".to_string();
    let run: PipelineRun<Config, Metrics> = PipelineRun::new(c, "alice");
    assert_eq!(run.status, PipelineStatus::Pending);
    assert_eq!(run.stages.len(), 7);
    assert_eq!(run.created_by, "alice");
    assert_eq!(run.config.training_data_path, "/data/training");
    assert_eq!(run.stages[0].stage, PipelineStage::DataCollection);
    assert_eq!(run.stages[6].stage, PipelineStage::Deployment);
}

#[test]
fn test_pipeline_execution() {
    let mut pipeline: TrainingPipeline<Config, Metrics> = TrainingPipeline::new();
    let run_id = pipeline.create_run(config("test-model", "v1.0.0"), "bob");
    let ok = |_s: PipelineStage| -> Result<Metrics, String> { Ok(vec![("accuracy".to_string(), 95)]) };
    drive(&mut pipeline, run_id, &ok).unwrap();
    let run = pipeline.get_run(&run_id).unwrap();
    assert_eq!(run.status, PipelineStatus::Completed);
    assert!(run.completed_at.is_some());
    for stage in &run.stages {
        assert_eq!(stage.status, PipelineStatus::Completed);
        assert_eq!(stage.metrics, Some(vec![("accuracy".to_string(), 95)]));
    }
    assert_eq!(run.stages[0].started_at, Some(100));
    assert_eq!(run.stages[6].completed_at, Some(107));
    assert_eq!(run.completed_at, Some(107));
}

#[test]
fn test_pipeline_cancellation() {
    let mut pipeline: TrainingPipeline<Config, Metrics> = TrainingPipeline::new();
    let run_id = pipeline.create_run(config("test-model", "v1.0.0"), "charlie");
    pipeline.cancel_run(&run_id).unwrap();
    let run = pipeline.get_run(&run_id).unwrap();
    assert_eq!(run.status, PipelineStatus::Cancelled);
    assert!(run.completed_at.is_some());
}

#[test]
fn test_pipeline_failure() {
    let mut pipeline: TrainingPipeline<Config, Metrics> = TrainingPipeline::new();
    let run_id = pipeline.create_run(config("test-model", "v1.0.0"), "dave");
    let failing = |s: PipelineStage| -> Result<Metrics, String> {
        if s == PipelineStage::Training {
            Err("Training failed".to_string())
        } else {
            Ok(vec![])
        }
    };
    assert_eq!(drive(&mut pipeline, run_id, &failing), Err("Training failed".to_string()));
    let run = pipeline.get_run(&run_id).unwrap();
    assert_eq!(run.status, PipelineStatus::Failed);
    assert_eq!(run.stages[2].status, PipelineStatus::Completed);
    assert_eq!(run.stages[3].status, PipelineStatus::Failed);
    assert_eq!(run.stages[3].error.as_deref(), Some("Training failed"));
    assert_eq!(run.stages[4].status, PipelineStatus::Pending);
    assert_eq!(pipeline.cancel_run(&run_id), Err(PipelineError::AlreadyComplete));
}

#[test]
fn test_stage_result() {
    let mut stage: StageResult<Metrics> = StageResult::new(PipelineStage::Training);
    assert_eq!(stage.status, PipelineStatus::Pending);
    assert!(stage.started_at.is_none());
    stage.start();
    assert_eq!(stage.status, PipelineStatus::Running);
    assert!(stage.started_at.is_some());
    stage.complete();
    assert_eq!(stage.status, PipelineStatus::Completed);
    assert!(stage.completed_at.is_some());
}

#[test]
fn pipeline_errors_and_listing() {
    let mut pipeline: TrainingPipeline<Config, Metrics> = TrainingPipeline::new();
    assert_eq!(pipeline.start_run(&7, 1).unwrap_err(), PipelineError::RunNotFound);
    let a = pipeline.create_run_at(config("a", "1"), "x", 1, 10);
    let b = pipeline.create_run_at(config("b", "1"), "y", 2, 20);
    assert_eq!(pipeline.finish_stage(&a, Ok(vec![]), 11).unwrap_err(), PipelineError::NotRunning);
    pipeline.start_run(&a, 12).unwrap();
    assert_eq!(pipeline.get_run(&a).unwrap().get_current_stage().unwrap().stage, PipelineStage::DataCollection);
    pipeline.cancel_run_at(&b, 30).unwrap();
    let all: Vec<u128> = pipeline.list_runs().iter().map(|r| r.id).collect();
    assert_eq!(all, vec![1, 2]);
    let running: Vec<u128> = pipeline.list_runs_by_status(&PipelineStatus::Running).iter().map(|r| r.id).collect();
    assert_eq!(running, vec![1]);
    assert_eq!(pipeline.get_run(&b).unwrap().completed_at, Some(30));
    assert_eq!(PipelineError::AlreadyComplete.message(), "Cannot cancel completed run");
}

use patronus::mlops::retraining::{RetrainingError, RetrainingManager, RetrainingTrigger, TriggerType};

/// Thresholds as a caller might hold them; the manager never reads them.
#[derive(Clone, Debug, PartialEq)]
struct Thresholds {
    min_accuracy: f64,
}

#[test]
fn test_time_based_trigger() {
    let trigger: RetrainingTrigger<Thresholds> = RetrainingTrigger::time_based("test-model", 7);

    assert_eq!(trigger.trigger_type, TriggerType::TimeBasedSchedule);
    assert!(trigger.should_trigger_time_based());
}

#[test]
fn test_retraining_manager() {
    let mut manager: RetrainingManager<Thresholds> = RetrainingManager::new();

    let trigger = RetrainingTrigger::time_based("anomaly-detector", 30);
    let trigger_id = manager.add_trigger(trigger);

    let triggers = manager.list_triggers_for_model("anomaly-detector");
    assert_eq!(triggers.len(), 1);

    manager.remove_trigger(&trigger_id).unwrap();

    let triggers = manager.list_triggers_for_model("anomaly-detector");
    assert_eq!(triggers.len(), 0);
}

#[test]
fn test_trigger_count() {
    let mut trigger: RetrainingTrigger<Thresholds> = RetrainingTrigger::time_based("test-model", 7);

    assert_eq!(trigger.trigger_count, 0);

    trigger.trigger();
    assert_eq!(trigger.trigger_count, 1);
    assert!(trigger.last_triggered.is_some());

    trigger.trigger();
    assert_eq!(trigger.trigger_count, 2);
}

#[test]
fn test_enable_disable_trigger() {
    let mut manager: RetrainingManager<Thresholds> = RetrainingManager::new();

    let trigger = RetrainingTrigger::time_based("test-model", 7);
    let trigger_id = manager.add_trigger(trigger);

    manager.disable_trigger(&trigger_id).unwrap();
    let trigger = manager.get_trigger(&trigger_id).unwrap();
    assert!(!trigger.enabled);

    manager.enable_trigger(&trigger_id).unwrap();
    let trigger = manager.get_trigger(&trigger_id).unwrap();
    assert!(trigger.enabled);
}

#[test]
fn schedule_is_due_after_its_interval_only() {
    let day: i64 = 86400;
    let mut trigger: RetrainingTrigger<Thresholds> = RetrainingTrigger::time_based("m", 7);
    assert!(trigger.should_trigger_time_based_at(1_000));
    trigger.trigger_at(1_000);
    assert_eq!(trigger.last_triggered, Some(1_000));
    assert_eq!(trigger.trigger_count, 1);
    assert!(!trigger.should_trigger_time_based_at(1_000 + 7 * day - 1));
    assert!(trigger.should_trigger_time_based_at(1_000 + 7 * day));
    trigger.enabled = false;
    assert!(!trigger.should_trigger_time_based_at(1_000 + 70 * day));
}

#[test]
fn other_trigger_kinds_are_never_scheduled() {
    let perf = RetrainingTrigger::performance_based("m", Thresholds { min_accuracy: 0.9 });
    assert_eq!(perf.trigger_type, TriggerType::PerformanceDegradation);
    assert_eq!(perf.schedule_interval_days, None);
    assert!(!perf.should_trigger_time_based_at(0));
    let drift: RetrainingTrigger<Thresholds> = RetrainingTrigger::data_drift("m", Thresholds { min_accuracy: 0.3 });
    assert_eq!(drift.trigger_type, TriggerType::DataDrift);
    assert!(!drift.should_trigger_time_based());
}

#[test]
fn check_time_based_fires_due_schedules_in_order() {
    let day: i64 = 86400;
    let mut manager: RetrainingManager<Thresholds> = RetrainingManager::new();
    let a = manager.add_trigger(RetrainingTrigger::time_based("a", 1));
    let mut b_trigger = RetrainingTrigger::time_based("b", 10);
    b_trigger.trigger_at(0);
    let b = manager.add_trigger(b_trigger);
    let c = manager.add_trigger(RetrainingTrigger::performance_based("c", Thresholds { min_accuracy: 0.5 }));

    let fired = manager.check_time_based_triggers_at(5 * day);
    assert_eq!(fired, vec!["a".to_string()]);
    assert_eq!(manager.get_trigger(&a).unwrap().last_triggered, Some(5 * day));
    assert_eq!(manager.get_trigger(&b).unwrap().trigger_count, 1);
    assert_eq!(manager.get_trigger(&c).unwrap().trigger_count, 0);

    let fired = manager.check_time_based_triggers_at(10 * day);
    assert_eq!(fired, vec!["a".to_string(), "b".to_string()]);
    assert_eq!(manager.get_trigger(&a).unwrap().trigger_count, 2);
    assert_eq!(manager.get_trigger(&b).unwrap().last_triggered, Some(10 * day));
}

#[test]
fn fire_first_matching_fires_one_trigger_of_the_model() {
    let mut manager: RetrainingManager<Thresholds> = RetrainingManager::new();
    let first = manager.add_trigger(RetrainingTrigger::performance_based("m", Thresholds { min_accuracy: 0.9 }));
    let second = manager.add_trigger(RetrainingTrigger::data_drift("m", Thresholds { min_accuracy: 0.3 }));
    let other = manager.add_trigger(RetrainingTrigger::data_drift("n", Thresholds { min_accuracy: 0.3 }));

    assert!(!manager.fire_first_matching_at("m", &vec![other], 50));
    assert_eq!(manager.get_trigger(&other).unwrap().trigger_count, 0);

    assert!(manager.fire_first_matching_at("m", &vec![second, first], 60));
    assert_eq!(manager.get_trigger(&first).unwrap().trigger_count, 1);
    assert_eq!(manager.get_trigger(&first).unwrap().last_triggered, Some(60));
    assert_eq!(manager.get_trigger(&second).unwrap().trigger_count, 0);

    assert!(!manager.fire_first_matching_at("unknown", &vec![first], 70));
    assert!(manager.counts_below_max());
}

#[test]
fn unknown_triggers_are_refused() {
    let mut manager: RetrainingManager<Thresholds> = RetrainingManager::default();
    assert_eq!(manager.remove_trigger(&7), Err(RetrainingError::TriggerNotFound));
    assert_eq!(manager.enable_trigger(&7), Err(RetrainingError::TriggerNotFound));
    assert_eq!(manager.disable_trigger(&7), Err(RetrainingError::TriggerNotFound));
    assert!(manager.get_trigger(&7).is_none());
    assert_eq!(RetrainingError::TriggerNotFound.message(), "Trigger not found");
}

#[test]
fn removing_a_trigger_keeps_the_others_of_its_model() {
    let mut manager: RetrainingManager<Thresholds> = RetrainingManager::new();
    let a = manager.add_trigger(RetrainingTrigger::time_based("m", 1));
    let b = manager.add_trigger(RetrainingTrigger::time_based("m", 2));
    let c = manager.add_trigger(RetrainingTrigger::time_based("m", 3));
    assert_ne!(a, b);
    manager.remove_trigger(&b).unwrap();
    let left: Vec<u128> = manager.list_triggers_for_model("m").iter().map(|t| t.id).collect();
    assert_eq!(left, vec![a, c]);
    assert!(manager.get_trigger(&b).is_none());
}
