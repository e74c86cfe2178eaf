use cg8::engine::{FrameState, HostEvent, Reaction};

#[test]
fn events_map_to_reactions() {
    let mut st = FrameState::new();
    assert_eq!(st.handle(HostEvent::EventsCleared), Reaction::Update);
    assert_eq!(st.handle(HostEvent::RedrawRequested), Reaction::Render);
    assert_eq!(st.handle(HostEvent::CloseRequested), Reaction::Exit);
    assert_eq!(st.handle(HostEvent::Other), Reaction::Ignore);
    assert_eq!(st.frame_count, 0);
}

#[test]
fn key_events_reach_the_keyboard() {
    let mut st = FrameState::new();
    let r = st.handle(HostEvent::Key { code: 30, pressed: true });
    assert_eq!(r, Reaction::Ignore);
    assert!(st.input.is_just_pressed(30));
    st.handle(HostEvent::Key { code: 30, pressed: false });
    assert!(st.input.is_just_released(30));
    assert!(!st.input.is_pressed(30));
}

#[test]
fn end_tick_counts_frames_and_ages_keys() {
    let mut st = FrameState::new();
    st.handle(HostEvent::Key { code: 4, pressed: true });
    st.end_tick();
    assert_eq!(st.frame_count, 1);
    assert!(st.input.is_pressed(4));
    assert!(!st.input.is_just_pressed(4));
    st.end_tick();
    assert_eq!(st.frame_count, 2);
}
