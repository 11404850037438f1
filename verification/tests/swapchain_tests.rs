use presentation::format::surface_format_list;
use presentation::surface::{SurfaceDescriptor, create_surface};
use presentation::swapchain::{
    AcquireError, FrameSync, PresentError, PresentOutcome, Swapchain, SwapchainStatus,
};

fn test_surface() -> SurfaceDescriptor {
    create_surface(7, 800, 600).unwrap()
}

fn test_swapchain(image_count: u32) -> Swapchain {
    let surface = test_surface();
    let format = surface_format_list()[0];
    Swapchain::create_swapchain(&surface, format, image_count)
}

#[test]
fn new_swapchain_is_operational_and_empty() {
    let swapchain = test_swapchain(3);
    assert_eq!(swapchain.image_count(), 3);
    assert_eq!(swapchain.status(), SwapchainStatus::Operational);
    assert_eq!(swapchain.queued_len(), 0);
    assert_eq!(swapchain.in_flight(), 0);
}

#[test]
fn acquire_hands_out_ring_indices_in_order() {
    let mut swapchain = test_swapchain(3);
    let first = swapchain.acquire_frame(FrameSync::Semaphore(1)).unwrap();
    assert_eq!(first.index, 0);
    let action = swapchain.present(first.index, &vec![]).unwrap();
    assert_eq!(action.index, 0);
    let second = swapchain.acquire_frame(FrameSync::Semaphore(2)).unwrap();
    assert_eq!(second.index, 1);
}

#[test]
fn two_buffer_swapchain_refuses_second_concurrent_acquire() {
    let mut swapchain = test_swapchain(2);
    let first = swapchain.acquire_frame(FrameSync::Semaphore(1)).unwrap();
    assert_eq!(first.index, 0);
    assert_eq!(
        swapchain.acquire_frame(FrameSync::Semaphore(2)),
        Err(AcquireError::NotReady)
    );
}

#[test]
fn acquire_is_refused_once_all_but_one_buffer_is_in_flight() {
    let mut swapchain = test_swapchain(3);
    let first = swapchain.acquire_frame(FrameSync::Semaphore(1)).unwrap();
    swapchain.present(first.index, &vec![]).unwrap();
    let second = swapchain.acquire_frame(FrameSync::Semaphore(2)).unwrap();
    assert_eq!(second.index, 1);
    assert_eq!(swapchain.in_flight(), 2);
    assert_eq!(
        swapchain.acquire_frame(FrameSync::Semaphore(3)),
        Err(AcquireError::NotReady)
    );
}

#[test]
fn largest_swapchain_allows_fifteen_frames_in_flight() {
    let mut swapchain = test_swapchain(16);
    for expected in 0u32..15 {
        let frame = swapchain.acquire_frame(FrameSync::Fence(expected as u64)).unwrap();
        assert_eq!(frame.index, expected);
    }
    assert_eq!(swapchain.in_flight(), 15);
    assert_eq!(
        swapchain.acquire_frame(FrameSync::Fence(99)),
        Err(AcquireError::NotReady)
    );
}

#[test]
fn acquire_never_returns_a_queued_index() {
    let mut swapchain = test_swapchain(3);
    let first = swapchain.acquire_frame(FrameSync::Semaphore(1)).unwrap();
    swapchain.present(first.index, &vec![]).unwrap();
    let second = swapchain.acquire_frame(FrameSync::Semaphore(2)).unwrap();
    assert_ne!(second.index, first.index);
}

#[test]
fn present_without_prior_acquire_fails() {
    let mut swapchain = test_swapchain(3);
    assert!(matches!(
        swapchain.present(0, &vec![]),
        Err(PresentError::NotAcquired)
    ));
}

#[test]
fn present_with_out_of_range_index_fails() {
    let mut swapchain = test_swapchain(3);
    assert!(matches!(
        swapchain.present(99, &vec![]),
        Err(PresentError::NotAcquired)
    ));
}

#[test]
fn presenting_the_same_frame_twice_fails() {
    let mut swapchain = test_swapchain(3);
    let frame = swapchain.acquire_frame(FrameSync::Semaphore(1)).unwrap();
    swapchain.present(frame.index, &vec![]).unwrap();
    assert!(matches!(
        swapchain.present(frame.index, &vec![]),
        Err(PresentError::NotAcquired)
    ));
}

#[test]
fn present_action_waits_on_the_given_semaphores_at_vsync_interval_one() {
    let mut swapchain = test_swapchain(3);
    let frame = swapchain.acquire_frame(FrameSync::Semaphore(1)).unwrap();
    let semaphores: Vec<u64> = vec![11, 22, 33];
    let action = swapchain.present(frame.index, &semaphores).unwrap();
    assert_eq!(action.index, frame.index);
    assert_eq!(action.sync_interval, 1);
    assert_eq!(action.wait_semaphores, semaphores);
}

#[test]
fn reclaim_returns_queued_buffers_in_present_order() {
    let mut swapchain = test_swapchain(4);
    let first = swapchain.acquire_frame(FrameSync::Semaphore(1)).unwrap();
    swapchain.present(first.index, &vec![]).unwrap();
    let second = swapchain.acquire_frame(FrameSync::Semaphore(2)).unwrap();
    swapchain.present(second.index, &vec![]).unwrap();
    assert_eq!(swapchain.queued_len(), 2);
    assert_eq!(swapchain.reclaim(), Some(first.index));
    assert_eq!(swapchain.reclaim(), Some(second.index));
    assert_eq!(swapchain.reclaim(), None);
}

#[test]
fn reclaim_on_empty_queue_returns_none() {
    let mut swapchain = test_swapchain(2);
    assert_eq!(swapchain.reclaim(), None);
}

#[test]
fn device_loss_retires_the_swapchain() {
    let mut swapchain = test_swapchain(2);
    let frame = swapchain.acquire_frame(FrameSync::Semaphore(1)).unwrap();
    swapchain.present(frame.index, &vec![]).unwrap();
    swapchain.record_present_outcome(PresentOutcome::DeviceLost);
    assert_eq!(swapchain.status(), SwapchainStatus::DeviceLost);
    assert_eq!(
        swapchain.acquire_frame(FrameSync::Semaphore(2)),
        Err(AcquireError::DeviceLost)
    );
    assert!(matches!(
        swapchain.present(0, &vec![]),
        Err(PresentError::DeviceLost)
    ));
}

#[test]
fn surface_loss_retires_the_swapchain() {
    let mut swapchain = test_swapchain(2);
    swapchain.record_present_outcome(PresentOutcome::SurfaceLost);
    assert_eq!(swapchain.status(), SwapchainStatus::SurfaceLost);
    assert_eq!(
        swapchain.acquire_frame(FrameSync::Semaphore(1)),
        Err(AcquireError::SurfaceLost)
    );
    assert!(matches!(
        swapchain.present(0, &vec![]),
        Err(PresentError::SurfaceLost)
    ));
}

#[test]
fn successful_present_outcome_keeps_the_swapchain_operational() {
    let mut swapchain = test_swapchain(2);
    let frame = swapchain.acquire_frame(FrameSync::Semaphore(1)).unwrap();
    swapchain.present(frame.index, &vec![]).unwrap();
    swapchain.record_present_outcome(PresentOutcome::Presented);
    assert_eq!(swapchain.status(), SwapchainStatus::Operational);
}

#[test]
fn round_trip_reacquires_a_previously_queued_index() {
    // Fake presentation engine with only two buffers that reclaims a
    // presented buffer two ticks after its present was ordered.
    let mut swapchain = test_swapchain(2);
    let mut previously_queued = [false; 2];
    let mut reacquired = false;
    let mut ticks_until_reclaim = 0;
    for _tick in 0..20 {
        match swapchain.acquire_frame(FrameSync::Semaphore(1)) {
            Ok(frame) => {
                if previously_queued[frame.index as usize] {
                    reacquired = true;
                }
                let action = swapchain.present(frame.index, &vec![]).unwrap();
                assert_eq!(action.sync_interval, 1);
                swapchain.record_present_outcome(PresentOutcome::Presented);
                previously_queued[frame.index as usize] = true;
                ticks_until_reclaim = 2;
            }
            Err(AcquireError::NotReady) => {
                if ticks_until_reclaim > 0 {
                    ticks_until_reclaim -= 1;
                }
                if ticks_until_reclaim == 0 {
                    swapchain.reclaim();
                }
            }
            Err(_) => unreachable!(),
        }
    }
    assert!(reacquired);
}
