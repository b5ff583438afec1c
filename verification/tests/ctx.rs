use panoramix::{CompCtx, Metadata, NoEvent, NoState, ProcessEventCtx};

#[derive(Debug, PartialEq, Eq)]
struct MyEvent(i32);

#[test]
fn event_queue() {
    let md: Metadata<MyEvent, NoState> = Default::default();

    let mut event_queue = Vec::<MyEvent>::new();
    let mut ctx = ProcessEventCtx {
        event_queue: &mut event_queue,
        state: &mut NoState,
    };
    ctx.event_queue(md).push(MyEvent(42));

    assert_eq!(event_queue, vec![MyEvent(42)],);
}

#[test]
fn state() {
    let md: Metadata<NoEvent, i64> = Default::default();

    let mut state = 12345_i64;
    let mut ctx = ProcessEventCtx {
        event_queue: &mut Vec::<NoEvent>::new(),
        state: &mut state,
    };

    assert_eq!(*ctx.state(md), 12345_i64,);

    *ctx.state(md) = 123_i64;
    assert_eq!(state, 123_i64,);
}

#[test]
fn use_metadata_records_the_call() {
    let mut ctx: CompCtx<u16> = CompCtx {
        called_use_metadata: false,
        local_state: None,
    };
    let _md: Metadata<NoEvent, u16> = ctx.use_metadata();
    assert!(ctx.called_use_metadata);
    assert!(ctx.local_state.is_none());
}

#[test]
fn get_local_state_returns_the_instance_state() {
    let local = 16_u16;
    let mut ctx = CompCtx {
        called_use_metadata: false,
        local_state: Some(&local),
    };
    let md: Metadata<NoEvent, u16> = ctx.use_metadata();
    assert_eq!(*ctx.get_local_state(md), 16);
}
