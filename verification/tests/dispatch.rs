use pipeline_core::Context;
use pipeline_core::FromContext;
use pipeline_core::Id;
use pipeline_core::Param;
use std::cell::Cell;

#[test]
fn param_extracts_text() {
    let context = Context::new("magic".into(), 33);
    let Param(param) = Param::from_context(&context);
    assert_eq!(param, "magic");
}

#[test]
fn id_extracts_number() {
    let context = Context::new("magic".into(), 33);
    let Id(id) = Id::from_context(&context);
    assert_eq!(id, 33);
}

#[test]
fn trigger_dispatches_single_params() {
    let context = Context::new("magic".into(), 33);
    let seen_id = Cell::new(0u32);
    let seen_param = Cell::new(false);
    pipeline_core::magic::trigger(context.clone(), |Id(id)| seen_id.set(id));
    pipeline_core::magic::trigger(context, |Param(param)| seen_param.set(param == "magic"));
    assert_eq!(seen_id.get(), 33);
    assert!(seen_param.get());
}

#[test]
fn trigger_dispatches_two_params_in_either_order() {
    let context = Context::new("magic".into(), 33);
    let hits = Cell::new(0u32);
    pipeline_core::magic::trigger(context.clone(), |Param(param), Id(id)| {
        assert_eq!(param, "magic");
        assert_eq!(id, 33);
        hits.set(hits.get() + 1);
    });
    pipeline_core::magic::trigger(context, |Id(id), Param(param)| {
        assert_eq!(param, "magic");
        assert_eq!(id, 33);
        hits.set(hits.get() + 1);
    });
    assert_eq!(hits.get(), 2);
}
