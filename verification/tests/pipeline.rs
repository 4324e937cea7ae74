use michi::pipeline::{Pipeline, PipelineStep, StepStatus};

#[test]
fn renders_pipeline_steps() {
    let p = Pipeline {
        id: "my-pipeline".into(),
        steps: vec![
            PipelineStep { id: "fetch".into(), name: "Fetch Data".into(), status: StepStatus::Completed },
            PipelineStep { id: "upload".into(), name: "Upload".into(), status: StepStatus::Pending },
        ],
    };
    let out = p.render();
    assert_eq!(out, "step[2]{id,name,status}:\n  fetch,Fetch Data,completed\n  upload,Upload,pending\n");
}

#[test]
fn empty_pipeline_renders_zero_steps() {
    let p = Pipeline { id: "empty".into(), steps: vec![] };
    let out = p.render();
    assert_eq!(out, "step[0]{id,name,status}:\n");
}

#[test]
fn failed_step_label() {
    let p = Pipeline {
        id: "p".into(),
        steps: vec![PipelineStep { id: "build".into(), name: "Build".into(), status: StepStatus::Failed }],
    };
    assert!(p.render().contains(",failed\n"), "got: {}", p.render());
}

#[test]
fn skipped_step_label() {
    let p = Pipeline {
        id: "p".into(),
        steps: vec![PipelineStep { id: "lint".into(), name: "Lint".into(), status: StepStatus::Skipped }],
    };
    assert!(p.render().contains(",skipped\n"), "got: {}", p.render());
}

#[test]
fn step_id_with_comma_is_toon_escaped() {
    let p = Pipeline {
        id: "p".into(),
        steps: vec![PipelineStep { id: "a,b".into(), name: "A,B Step".into(), status: StepStatus::Pending }],
    };
    let out = p.render();
    assert!(!out.contains("a,b,A,B"), "raw commas must not appear unescaped, got: {out}");
}

#[test]
fn ac001_step_status_has_exactly_four_variants() {
    fn all_variants(s: StepStatus) -> &'static str {
        match s {
            StepStatus::Completed => "completed",
            StepStatus::Skipped => "skipped",
            StepStatus::Failed => "failed",
            StepStatus::Pending => "pending",
            _ => unreachable!(),
        }
    }
    assert_eq!(all_variants(StepStatus::Completed), "completed");
}

#[test]
fn ac002_step_status_is_copy_and_comparable() {
    let a = StepStatus::Completed;
    let b = a;
    assert_eq!(a, b, "must still be usable after copy");
    assert_eq!(StepStatus::Completed, StepStatus::Completed);
    assert_ne!(StepStatus::Completed, StepStatus::Failed);
}

#[test]
fn ac004_completed_label_is_exact() {
    assert_eq!(StepStatus::Completed.label(), "completed");
}

#[test]
fn ac005_skipped_label_is_exact() {
    assert_eq!(StepStatus::Skipped.label(), "skipped");
}

#[test]
fn ac006_failed_label_is_exact() {
    assert_eq!(StepStatus::Failed.label(), "failed");
}

#[test]
fn ac007_pending_label_is_exact() {
    assert_eq!(StepStatus::Pending.label(), "pending");
}

#[test]
fn ac010_pipeline_default_has_empty_id_and_steps() {
    let p = Pipeline::default();
    assert_eq!(p.id, "");
    assert_eq!(p.steps.len(), 0);
}

#[test]
fn ac013_distinctive_id_never_appears_in_empty_render_output() {
    let p = Pipeline { id: "zzz-unique-marker-999".into(), steps: vec![] };
    let out = p.render();
    assert_eq!(out, "step[0]{id,name,status}:\n");
    assert!(!out.contains("zzz-unique-marker-999"), "got: {out}");
}

#[test]
fn ac014_comma_in_id_and_name_renders_exact_quoted_literal() {
    let p = Pipeline {
        id: "p".into(),
        steps: vec![PipelineStep { id: "a,b".into(), name: "A,B Step".into(), status: StepStatus::Pending }],
    };
    assert_eq!(p.render(), "step[1]{id,name,status}:\n  \"a,b\",\"A,B Step\",pending\n");
}

#[test]
fn ac017_render_is_idempotent_and_does_not_mutate() {
    let p = Pipeline {
        id: "p".into(),
        steps: vec![PipelineStep { id: "s".into(), name: "n".into(), status: StepStatus::Completed }],
    };
    let first = p.render();
    let second = p.render();
    assert_eq!(first, second);
    assert_eq!(p.id, "p");
    assert_eq!(p.steps[0].id, "s");
    assert_eq!(p.steps[0].name, "n");
    assert_eq!(p.steps[0].status, StepStatus::Completed);
}

#[test]
fn ac018_step_order_is_preserved_not_reordered() {
    let p = Pipeline {
        id: "p".into(),
        steps: vec![
            PipelineStep { id: "C".into(), name: "c".into(), status: StepStatus::Completed },
            PipelineStep { id: "A".into(), name: "a".into(), status: StepStatus::Completed },
            PipelineStep { id: "B".into(), name: "b".into(), status: StepStatus::Completed },
        ],
    };
    assert_eq!(p.render(), "step[3]{id,name,status}:\n  C,c,completed\n  A,a,completed\n  B,b,completed\n");
}

#[test]
fn ac019_duplicate_ids_render_without_error_or_dedup() {
    let p = Pipeline {
        id: "p".into(),
        steps: vec![
            PipelineStep { id: "dup".into(), name: "first".into(), status: StepStatus::Completed },
            PipelineStep { id: "dup".into(), name: "second".into(), status: StepStatus::Pending },
        ],
    };
    assert_eq!(p.render(), "step[2]{id,name,status}:\n  dup,first,completed\n  dup,second,pending\n");
}

#[test]
fn ac020_empty_id_and_name_render_without_panic() {
    let p = Pipeline {
        id: "p".into(),
        steps: vec![PipelineStep { id: String::new(), name: String::new(), status: StepStatus::Pending }],
    };
    assert_eq!(p.render(), "step[1]{id,name,status}:\n  ,,pending\n");
}

#[test]
fn ac025_embedded_newline_in_id_is_silently_stripped_not_escaped() {
    let id: String = ['l', 'i', 'n', 'e', '1', '\n', 'l', 'i', 'n', 'e', '2'].into_iter().collect();
    let p = Pipeline {
        id: "p".into(),
        steps: vec![PipelineStep { id, name: "ok".into(), status: StepStatus::Pending }],
    };
    assert_eq!(p.render(), "step[1]{id,name,status}:\n  line1line2,ok,pending\n");
}

#[test]
fn ac026_embedded_quote_in_id_is_escaped_within_quoted_field() {
    let id: String = ['a', '"', 'b'].into_iter().collect();
    let p = Pipeline {
        id: "p".into(),
        steps: vec![PipelineStep { id, name: "c".into(), status: StepStatus::Pending }],
    };
    assert_eq!(p.render(), "step[1]{id,name,status}:\n  \"a\\\"b\",c,pending\n");
}

#[test]
fn ac027_clone_is_deep_and_independent() {
    let p = Pipeline {
        id: "orig".into(),
        steps: vec![PipelineStep { id: "s".into(), name: "n".into(), status: StepStatus::Completed }],
    };
    let mut q = p.clone();
    assert_eq!(q.id, "orig");
    assert_eq!(q.steps.len(), 1);
    assert_eq!(q.steps[0].id, "s");
    assert_eq!(q.steps[0].name, "n");
    assert_eq!(q.steps[0].status, StepStatus::Completed);

    q.id = "changed".to_string();
    assert_eq!(p.id, "orig", "mutating the clone must not affect the original");
}

#[test]
fn pipeline_ac028_debug_output_is_exact() {
    assert_eq!(format!("{:?}", StepStatus::Completed), "Completed");
    assert_eq!(
        format!("{:?}", PipelineStep { id: "s".into(), name: "n".into(), status: StepStatus::Failed }),
        "PipelineStep { id: \"s\", name: \"n\", status: Failed }"
    );
    assert_eq!(format!("{:?}", Pipeline::default()), "Pipeline { id: \"\", steps: [] }");
}

#[test]
fn ac029_step_status_satisfies_eq_bound() {
    fn requires_eq<T: Eq>() {}
    requires_eq::<StepStatus>();
}

#[test]
fn ac030_embedded_carriage_return_in_id_is_silently_stripped_not_escaped() {
    let id: String = ['l', 'i', 'n', 'e', '1', '\r', 'l', 'i', 'n', 'e', '2'].into_iter().collect();
    let p = Pipeline {
        id: "p".into(),
        steps: vec![PipelineStep { id, name: "ok".into(), status: StepStatus::Pending }],
    };
    assert_eq!(p.render(), "step[1]{id,name,status}:\n  line1line2,ok,pending\n");
}
