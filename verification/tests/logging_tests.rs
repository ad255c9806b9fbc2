use pink_core::logging::{enter_span, render_log_line, tagged_prefix, tags, LogContext, Span};

fn tag_strings(ctx: &LogContext) -> Vec<String> {
    tags(ctx)
}

#[test]
fn lifo_ordering() {
    let mut ctx = LogContext::new(false, true);
    let a = enter_span(&mut ctx, "a");
    let b = enter_span(&mut ctx, "b");
    assert_eq!(tag_strings(&ctx), vec!["a".to_string(), "b".to_string()]);
    b.release(&mut ctx);
    a.release(&mut ctx);
    assert_eq!(tag_strings(&ctx), Vec::<String>::new());
}

#[test]
fn transaction_suppresses_spans() {
    let mut ctx = LogContext::new(true, true);
    let x = enter_span(&mut ctx, "x");
    assert_eq!(tag_strings(&ctx), Vec::<String>::new());
    x.release(&mut ctx);
    assert_eq!(tag_strings(&ctx), Vec::<String>::new());
}

#[test]
fn missing_driver_gives_inert_span() {
    let mut ctx = LogContext::new(false, false);
    let x = enter_span(&mut ctx, "x");
    assert!(!x.active);
    assert_eq!(tag_strings(&ctx), Vec::<String>::new());
    assert!(tagged_prefix(&ctx).is_none());
    x.release(&mut ctx);
}

#[test]
fn inert_default_span_release_is_noop() {
    let mut ctx = LogContext::new(false, true);
    let a = enter_span(&mut ctx, "a");
    let inert = Span::inert();
    inert.release(&mut ctx);
    assert_eq!(tag_strings(&ctx), vec!["a".to_string()]);
    a.release(&mut ctx);
}

#[test]
fn prefix_joins_tags_with_commas() {
    let mut ctx = LogContext::new(false, true);
    assert_eq!(tagged_prefix(&ctx), Some("".to_string()));
    let a = enter_span(&mut ctx, "outer");
    assert_eq!(tagged_prefix(&ctx), Some("outer".to_string()));
    let b = enter_span(&mut ctx, "inner");
    assert_eq!(tagged_prefix(&ctx), Some("outer,inner".to_string()));
    b.release(&mut ctx);
    a.release(&mut ctx);
}

#[test]
fn log_line_carries_prefix() {
    let mut ctx = LogContext::new(false, true);
    let a = enter_span(&mut ctx, "eval");
    let b = enter_span(&mut ctx, "fetch");
    assert_eq!(render_log_line(&ctx, "done"), "[eval,fetch]: done".to_string());
    b.release(&mut ctx);
    a.release(&mut ctx);
}

#[test]
fn log_line_without_driver_is_plain() {
    let ctx = LogContext::new(false, false);
    assert_eq!(render_log_line(&ctx, "done"), "done".to_string());
}
