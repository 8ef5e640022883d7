#![allow(non_snake_case)]

use component_messaging::engine::Engine;
use component_messaging::message_queue::{
    checkQueueActive, createNewMessageNormal, createNewMessagePriority,
    generateTestComponentHandle, initMessageQueue, initPriorityMessageQueue,
    registerTestHandlerNormal, registerTestHandlerPriority, removeTestComponentHandle,
    unregisterTestHandlerNormal, unregisterTestHandlerPriority,
};
use component_messaging::recorder::Recorder;
use component_messaging::types::{CallbackHandle, ComponentHandle, QueueKind};

fn spin_normal_queue_once(engine: &mut Engine<Recorder>) -> bool {
    match engine.drain_once(QueueKind::Normal) {
        Ok(report) => report.delivered,
        Err(_) => false,
    }
}

fn spin_priority_queue_once(engine: &mut Engine<Recorder>) -> bool {
    match engine.drain_once(QueueKind::Priority) {
        Ok(report) => report.delivered,
        Err(_) => false,
    }
}

fn last_message(engine: &Engine<Recorder>, kind: QueueKind, component: u8, callback: u64) -> (String, u8, u8) {
    let recorder = engine
        .callback(kind, ComponentHandle(component), CallbackHandle(callback))
        .expect("the handler is registered");
    let message = recorder.last.as_ref().expect("the handler was given a message");
    let text = std::str::from_utf8(&message.payload).unwrap().to_string();
    (text, message.message_type, message.destination.0)
}

#[test]
fn test_normal_queue() {
    let testMsg: &str = "test Message\0";
    let msg_type: u8 = 3;
    let mut engine: Engine<Recorder> = Engine::new();
    initMessageQueue(&mut engine);
    assert_eq!(checkQueueActive(&engine, 0), true);
    assert_eq!(checkQueueActive(&engine, 1), false);
    let (testComponent, error) = generateTestComponentHandle(&mut engine);
    assert_eq!(error, 0);
    let testCallbackOne = registerTestHandlerNormal(&mut engine, 1, testComponent);
    let testCallbackTwo = registerTestHandlerNormal(&mut engine, 2, testComponent);
    let testCallbackThree = registerTestHandlerNormal(&mut engine, 3, testComponent);
    createNewMessageNormal(&mut engine, msg_type, testComponent, testMsg.as_bytes());
    assert_eq!(spin_normal_queue_once(&mut engine), true);
    {
        let (lastStrDatOne, lastMsgTypeOne, lastCompHandleOne) =
            last_message(&engine, QueueKind::Normal, testComponent, testCallbackOne);
        assert_eq!(testMsg, lastStrDatOne);
        assert_eq!(msg_type, lastMsgTypeOne);
        assert_eq!(testComponent, lastCompHandleOne);
    }
    {
        let (lastStrDatTwo, lastMsgTypeTwo, lastCompHandleTwo) =
            last_message(&engine, QueueKind::Normal, testComponent, testCallbackTwo);
        assert_eq!(testMsg, lastStrDatTwo);
        assert_eq!(msg_type, lastMsgTypeTwo);
        assert_eq!(testComponent, lastCompHandleTwo);
    }
    {
        let (lastStrDatThree, lastMsgTypeThree, lastCompHandleThree) =
            last_message(&engine, QueueKind::Normal, testComponent, testCallbackThree);
        assert_eq!(testMsg, lastStrDatThree);
        assert_eq!(msg_type, lastMsgTypeThree);
        assert_eq!(testComponent, lastCompHandleThree);
    }
    assert_eq!(unregisterTestHandlerNormal(&mut engine, testComponent, testCallbackOne), 0);
    assert_eq!(unregisterTestHandlerNormal(&mut engine, testComponent, testCallbackTwo), 0);
    assert_eq!(unregisterTestHandlerNormal(&mut engine, testComponent, testCallbackThree), 0);
    assert_eq!(removeTestComponentHandle(&mut engine, testComponent), 0);
    assert_eq!(engine.uninitialize(QueueKind::Normal), Ok(()));
}

#[test]
fn test_priority_queue() {
    let testMsg: &str = "test Message\0";
    let msg_type: u8 = 3;
    let mut engine: Engine<Recorder> = Engine::new();
    initPriorityMessageQueue(&mut engine);
    assert_eq!(checkQueueActive(&engine, 1), true);
    assert_eq!(checkQueueActive(&engine, 0), false);
    let (testComponent, error) = generateTestComponentHandle(&mut engine);
    assert_eq!(error, 0);
    let testCallbackOne = registerTestHandlerPriority(&mut engine, 1, testComponent);
    let testCallbackTwo = registerTestHandlerPriority(&mut engine, 2, testComponent);
    let testCallbackThree = registerTestHandlerPriority(&mut engine, 3, testComponent);
    createNewMessagePriority(&mut engine, msg_type, testComponent, testMsg.as_bytes());
    assert_eq!(spin_priority_queue_once(&mut engine), true);
    {
        let (lastStrDatOne, lastMsgTypeOne, lastCompHandleOne) =
            last_message(&engine, QueueKind::Priority, testComponent, testCallbackOne);
        assert_eq!(testMsg, lastStrDatOne);
        assert_eq!(msg_type, lastMsgTypeOne);
        assert_eq!(testComponent, lastCompHandleOne);
    }
    {
        let (lastStrDatTwo, lastMsgTypeTwo, lastCompHandleTwo) =
            last_message(&engine, QueueKind::Priority, testComponent, testCallbackTwo);
        assert_eq!(testMsg, lastStrDatTwo);
        assert_eq!(msg_type, lastMsgTypeTwo);
        assert_eq!(testComponent, lastCompHandleTwo);
    }
    {
        let (lastStrDatThree, lastMsgTypeThree, lastCompHandleThree) =
            last_message(&engine, QueueKind::Priority, testComponent, testCallbackThree);
        assert_eq!(testMsg, lastStrDatThree);
        assert_eq!(msg_type, lastMsgTypeThree);
        assert_eq!(testComponent, lastCompHandleThree);
    }
    assert_eq!(unregisterTestHandlerPriority(&mut engine, testComponent, testCallbackOne), 0);
    assert_eq!(unregisterTestHandlerPriority(&mut engine, testComponent, testCallbackTwo), 0);
    assert_eq!(unregisterTestHandlerPriority(&mut engine, testComponent, testCallbackThree), 0);
    assert_eq!(removeTestComponentHandle(&mut engine, testComponent), 0);
    assert_eq!(engine.uninitialize(QueueKind::Priority), Ok(()));
}

#[test]
fn test_both_queues() {
    let testMsgN: &str = "test Message N\0";
    let testMsgP: &str = "test Message P\0";
    let msg_type: u8 = 3;
    let mut engine: Engine<Recorder> = Engine::new();
    initMessageQueue(&mut engine);
    initPriorityMessageQueue(&mut engine);
    assert_eq!(checkQueueActive(&engine, 0), true);
    assert_eq!(checkQueueActive(&engine, 1), true);
    let (testComponent, error) = generateTestComponentHandle(&mut engine);
    assert_eq!(error, 0);
    let testCallbackOne = registerTestHandlerPriority(&mut engine, 1, testComponent);
    let testCallbackTwo = registerTestHandlerPriority(&mut engine, 2, testComponent);
    let testCallbackThree = registerTestHandlerNormal(&mut engine, 3, testComponent);
    createNewMessageNormal(&mut engine, msg_type, testComponent, testMsgN.as_bytes());
    createNewMessagePriority(&mut engine, msg_type, testComponent, testMsgP.as_bytes());
    assert_eq!(spin_normal_queue_once(&mut engine), true);
    assert_eq!(spin_priority_queue_once(&mut engine), true);
    {
        let (lastStrDatOne, lastMsgTypeOne, lastCompHandleOne) =
            last_message(&engine, QueueKind::Priority, testComponent, testCallbackOne);
        assert_eq!(testMsgP, lastStrDatOne);
        assert_eq!(msg_type, lastMsgTypeOne);
        assert_eq!(testComponent, lastCompHandleOne);
    }
    {
        let (lastStrDatTwo, lastMsgTypeTwo, lastCompHandleTwo) =
            last_message(&engine, QueueKind::Priority, testComponent, testCallbackTwo);
        assert_eq!(testMsgP, lastStrDatTwo);
        assert_eq!(msg_type, lastMsgTypeTwo);
        assert_eq!(testComponent, lastCompHandleTwo);
    }
    {
        let (lastStrDatThree, lastMsgTypeThree, lastCompHandleThree) =
            last_message(&engine, QueueKind::Normal, testComponent, testCallbackThree);
        assert_eq!(testMsgN, lastStrDatThree);
        assert_eq!(msg_type, lastMsgTypeThree);
        assert_eq!(testComponent, lastCompHandleThree);
    }
    assert_eq!(unregisterTestHandlerPriority(&mut engine, testComponent, testCallbackOne), 0);
    assert_eq!(unregisterTestHandlerPriority(&mut engine, testComponent, testCallbackTwo), 0);
    assert_eq!(unregisterTestHandlerNormal(&mut engine, testComponent, testCallbackThree), 0);
    assert_eq!(removeTestComponentHandle(&mut engine, testComponent), 0);
    assert_eq!(engine.uninitialize(QueueKind::Normal), Ok(()));
    assert_eq!(engine.uninitialize(QueueKind::Priority), Ok(()));
}
