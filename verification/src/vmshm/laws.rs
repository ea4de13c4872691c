//! What holds of every attachment, whatever the broker and the host answer.

use super::attach;
use super::attach::{ActionModel, AttachModel, AttachPhase, VmshmEvent, WindowMapping};
use super::error::VmshmError;
use super::handshake;
use super::handshake::{ReceivedMessage, VmshmHandshakeReply};
use super::region;
use super::region::{UserMemoryRegion, VmshmRegion};
use crate::vmm_config::VmshmDeviceConfig;
use vstd::prelude::*;

verus! {

/// An attachment together with what it did so far.
pub struct AttachRun {
    /// The attachment.
    pub model: AttachModel,
    /// The windows that it attached, in order.
    pub regions: Seq<VmshmRegion>,
    /// The actions that it asked for, one for each event.
    pub actions: Seq<ActionModel>,
}

/// The attachment of `configs` beside the guest RAM that `ram` lists, after `events`.
pub open spec fn run(
    ram: Seq<(u64, u64)>,
    configs: Seq<VmshmDeviceConfig>,
    events: Seq<VmshmEvent>,
) -> AttachRun
    decreases events.len(),
{
    if events.len() == 0 {
        AttachRun {
            model: AttachModel::fresh(configs),
            regions: Seq::empty(),
            actions: Seq::empty(),
        }
    } else {
        let before = run(ram, configs, events.drop_last());
        let step = before.model.step(ram, events.last());
        AttachRun {
            model: step.model,
            regions: step.regions_after(before.regions),
            actions: before.actions.push(step.action),
        }
    }
}

/// Whether a window meets every demand on the window of configuration `i`: it is whole pages at
/// a page boundary, has the size that the configuration expects, lies clear of guest RAM, and
/// has a slot that neither guest RAM nor an earlier window takes.
pub open spec fn region_sound(
    ram: Seq<(u64, u64)>,
    configs: Seq<VmshmDeviceConfig>,
    i: int,
    region: VmshmRegion,
) -> bool {
    &&& region.config == configs[i]
    &&& handshake::name_fits(region.config)
    &&& 0 < region.window_size <= usize::MAX
    &&& region.window_size % handshake::GUEST_PAGE_SIZE == 0
    &&& region.config.guest_phys_addr % handshake::GUEST_PAGE_SIZE == 0
    &&& region.config.expected_size matches Some(expected) ==> expected == region.window_size
    &&& region::region_acceptable(ram, region, attach::slots(configs.take(i)))
}

/// What holds of an attachment after any events.
pub open spec fn run_sound(
    ram: Seq<(u64, u64)>,
    configs: Seq<VmshmDeviceConfig>,
    run: AttachRun,
) -> bool {
    &&& run.model.configs == configs
    &&& run.model.consistent()
    &&& run.regions.len() == run.model.next
    &&& forall|i: int|
        0 <= i < run.regions.len() ==> region_sound(ram, configs, i, #[trigger] run.regions[i])
    &&& run.model.phase matches AttachPhase::Mapping(reply) ==> handshake::reply_acceptable(
        run.model.config(),
        reply,
    ) && reply.window_size <= usize::MAX
    &&& run.model.phase matches AttachPhase::Registering(region) ==> region_sound(
        ram,
        configs,
        run.model.next as int,
        region,
    )
}

/// Every attachment is sound after any events.
pub proof fn law_every_run_sound(
    ram: Seq<(u64, u64)>,
    configs: Seq<VmshmDeviceConfig>,
    events: Seq<VmshmEvent>,
)
    ensures
        run_sound(ram, configs, run(ram, configs, events)),
    decreases events.len(),
{
    if events.len() > 0 {
        let before = run(ram, configs, events.drop_last());
        law_every_run_sound(ram, configs, events.drop_last());
        if let (AttachPhase::Mapping(reply), VmshmEvent::WindowMapped(Ok(host_addr))) = (
            before.model.phase,
            events.last(),
        ) {
            region::law_region_accepted(
                ram,
                attach::granted_region(before.model.config(), reply, host_addr),
                before.model.used_slots(),
            );
        }
    }
}

/// Every window that is attached meets every demand on it.
pub proof fn law_attached_windows_sound(
    ram: Seq<(u64, u64)>,
    configs: Seq<VmshmDeviceConfig>,
    events: Seq<VmshmEvent>,
    i: int,
)
    requires
        0 <= i < run(ram, configs, events).regions.len(),
    ensures
        i < configs.len(),
        region_sound(ram, configs, i, run(ram, configs, events).regions[i]),
{
    law_every_run_sound(ram, configs, events);
}

/// No address of an attached window is an address of guest RAM.
pub proof fn law_attached_windows_clear_of_ram(
    ram: Seq<(u64, u64)>,
    configs: Seq<VmshmDeviceConfig>,
    events: Seq<VmshmEvent>,
    i: int,
    j: int,
    addr: int,
)
    requires
        0 <= i < run(ram, configs, events).regions.len(),
        0 <= j < ram.len(),
        ({
            let region = run(ram, configs, events).regions[i];
            region::in_range(
                addr,
                region.config.guest_phys_addr as int,
                region.config.guest_phys_addr + region.window_size,
            )
        }),
    ensures
        !region::in_range(addr, ram[j].0 as int, ram[j].0 + ram[j].1),
{
    let region = run(ram, configs, events).regions[i];
    let used_slots = attach::slots(configs.take(i));
    law_every_run_sound(ram, configs, events);
    region::law_region_accepted(ram, region, used_slots);
    region::law_accepted_window_clear_of_ram(ram, region, used_slots, addr, j);
}

/// No two attached windows have the same slot.
pub proof fn law_attached_slots_distinct(
    ram: Seq<(u64, u64)>,
    configs: Seq<VmshmDeviceConfig>,
    events: Seq<VmshmEvent>,
    i: int,
    j: int,
)
    requires
        0 <= i < j < run(ram, configs, events).regions.len(),
    ensures
        run(ram, configs, events).regions[i].config.slot != run(
            ram,
            configs,
            events,
        ).regions[j].config.slot,
{
    let regions = run(ram, configs, events).regions;
    law_every_run_sound(ram, configs, events);
    assert(region_sound(ram, configs, i, regions[i]));
    assert(region_sound(ram, configs, j, regions[j]));
    assert(attach::slots(configs.take(j))[i] == regions[i].config.slot);
}

/// Every attached window has a slot behind those of guest RAM, as long as the regions of guest
/// RAM can be counted in a slot number.
pub proof fn law_attached_slots_behind_ram(
    ram: Seq<(u64, u64)>,
    configs: Seq<VmshmDeviceConfig>,
    events: Seq<VmshmEvent>,
    i: int,
)
    requires
        0 <= i < run(ram, configs, events).regions.len(),
        ram.len() <= u32::MAX,
    ensures
        ram.len() <= run(ram, configs, events).regions[i].config.slot,
{
    let region = run(ram, configs, events).regions[i];
    let used_slots = attach::slots(configs.take(i));
    law_every_run_sound(ram, configs, events);
    region::law_region_accepted(ram, region, used_slots);
    region::law_accepted_slot_behind_ram(ram, region, used_slots);
}

/// KVM is only ever told of the slot of a window that meets every demand on it.
pub proof fn law_registered_windows_sound(
    ram: Seq<(u64, u64)>,
    configs: Seq<VmshmDeviceConfig>,
    events: Seq<VmshmEvent>,
)
    requires
        events.len() > 0,
        run(ram, configs, events).actions.last() is Register,
    ensures
        ({
            let after = run(ram, configs, events);
            exists|region: VmshmRegion|
                #![trigger region.user_memory()]
                {
                    &&& after.actions.last() == ActionModel::Register(region.user_memory())
                    &&& region_sound(ram, configs, after.model.next as int, region)
                }
        }),
{
    let after = run(ram, configs, events);
    law_every_run_sound(ram, configs, events);
    if let AttachPhase::Registering(region) = after.model.phase {
        assert(after.actions.last() == ActionModel::Register(region.user_memory()));
    }
}

/// A memfd is only ever mapped for a reply that is acceptable, whole, from its start, for reading
/// and writing, and shared.
pub proof fn law_mapped_windows_granted(
    ram: Seq<(u64, u64)>,
    configs: Seq<VmshmDeviceConfig>,
    events: Seq<VmshmEvent>,
    mapping: WindowMapping,
)
    requires
        events.len() > 0,
        run(ram, configs, events).actions.last() == ActionModel::MapWindow(mapping),
    ensures
        ({
            let after = run(ram, configs, events);
            &&& after.model.phase matches AttachPhase::Mapping(reply)
            &&& handshake::reply_acceptable(after.model.config(), reply)
            &&& mapping.size == reply.window_size
            &&& mapping.offset == 0
            &&& mapping.read && mapping.write && mapping.shared
        }),
{
    law_every_run_sound(ram, configs, events);
}

/// The broker is only ever sent the request of the configuration that the attachment is at, and
/// only with a name that fits.
pub proof fn law_sent_requests_fit(
    ram: Seq<(u64, u64)>,
    configs: Seq<VmshmDeviceConfig>,
    events: Seq<VmshmEvent>,
)
    requires
        events.len() > 0,
        run(ram, configs, events).actions.last() is SendRequest,
    ensures
        ({
            let after = run(ram, configs, events);
            &&& after.model.next < configs.len()
            &&& handshake::name_fits(after.model.config())
            &&& after.actions.last() == ActionModel::SendRequest(
                handshake::request_bytes(after.model.config()),
            )
        }),
{
    law_every_run_sound(ram, configs, events);
}

/// An attachment that ends well has attached a window for every configuration.
pub proof fn law_success_attaches_all(
    ram: Seq<(u64, u64)>,
    configs: Seq<VmshmDeviceConfig>,
    events: Seq<VmshmEvent>,
)
    requires
        events.len() > 0,
        run(ram, configs, events).actions.last() == ActionModel::Finished(Ok(())),
    ensures
        run(ram, configs, events).regions.len() == configs.len(),
        forall|i: int|
            0 <= i < configs.len() ==> #[trigger] run(ram, configs, events).regions[i].config
                == configs[i],
{
    law_every_run_sound(ram, configs, events);
    let after = run(ram, configs, events);
    assert forall|i: int| 0 <= i < configs.len() implies #[trigger] after.regions[i].config
        == configs[i] by {
        assert(region_sound(ram, configs, i, after.regions[i]));
    }
}

/// An attachment that fails has attached exactly the windows of the configurations before the
/// one that it failed at.
pub proof fn law_failure_keeps_earlier_windows(
    ram: Seq<(u64, u64)>,
    configs: Seq<VmshmDeviceConfig>,
    events: Seq<VmshmEvent>,
)
    requires
        events.len() > 0,
        run(ram, configs, events).actions.last() matches ActionModel::Finished(result) && result
            is Err,
    ensures
        ({
            let after = run(ram, configs, events);
            let before = run(ram, configs, events.drop_last());
            &&& after.regions.len() == after.model.next < configs.len()
            &&& before.regions.len() <= after.regions.len() <= before.regions.len() + 1
            &&& forall|i: int|
                0 <= i < after.regions.len() ==> #[trigger] after.regions[i].config == configs[i]
        }),
{
    law_every_run_sound(ram, configs, events);
    law_every_run_sound(ram, configs, events.drop_last());
    let after = run(ram, configs, events);
    assert forall|i: int| 0 <= i < after.regions.len() implies #[trigger] after.regions[i].config
        == configs[i] by {
        assert(region_sound(ram, configs, i, after.regions[i]));
    }
}

/// A window that is attached stays attached, whatever happens later.
pub proof fn law_attached_windows_stay(
    ram: Seq<(u64, u64)>,
    configs: Seq<VmshmDeviceConfig>,
    events: Seq<VmshmEvent>,
    later: Seq<VmshmEvent>,
)
    ensures
        run(ram, configs, events).regions.is_prefix_of(run(ram, configs, events + later).regions),
    decreases later.len(),
{
    if later.len() == 0 {
        assert(events + later =~= events);
    } else {
        law_attached_windows_stay(ram, configs, events, later.drop_last());
        assert((events + later).drop_last() =~= events + later.drop_last());
    }
}

/// The action that still wants an answer: the last one that is not [`ActionModel::Unexpected`].
pub open spec fn pending(actions: Seq<ActionModel>) -> ActionModel
    decreases actions.len(),
{
    if actions.len() == 0 {
        ActionModel::Unexpected
    } else if actions.last() is Unexpected {
        pending(actions.drop_last())
    } else {
        actions.last()
    }
}

/// The memory slots that KVM accepted, in order: each that it was told of and answered for well.
pub open spec fn accepted_slots(
    ram: Seq<(u64, u64)>,
    configs: Seq<VmshmDeviceConfig>,
    events: Seq<VmshmEvent>,
) -> Seq<UserMemoryRegion>
    decreases events.len(),
{
    if events.len() == 0 {
        Seq::empty()
    } else {
        let before = accepted_slots(ram, configs, events.drop_last());
        match (pending(run(ram, configs, events.drop_last()).actions), events.last()) {
            (ActionModel::Register(slot), VmshmEvent::RegionRegistered(Ok(_))) => before.push(slot),
            _ => before,
        }
    }
}

/// A registration wants an answer exactly while the attachment waits for one, and it is that of
/// the window under way.
pub proof fn lemma_pending_registration(
    ram: Seq<(u64, u64)>,
    configs: Seq<VmshmDeviceConfig>,
    events: Seq<VmshmEvent>,
)
    ensures
        ({
            let after = run(ram, configs, events);
            &&& pending(after.actions) is Register ==> after.model.phase is Registering
            &&& after.model.phase matches AttachPhase::Registering(region) ==> pending(
                after.actions,
            ) == ActionModel::Register(region.user_memory())
        }),
    decreases events.len(),
{
    if events.len() > 0 {
        let before = run(ram, configs, events.drop_last());
        lemma_pending_registration(ram, configs, events.drop_last());
        assert(run(ram, configs, events).actions.drop_last() =~= before.actions);
    }
}

/// The memory slots that KVM accepted are those of the attached windows, one for each and in the
/// same order.
pub proof fn law_accepted_slots_are_windows(
    ram: Seq<(u64, u64)>,
    configs: Seq<VmshmDeviceConfig>,
    events: Seq<VmshmEvent>,
)
    ensures
        accepted_slots(ram, configs, events) == run(ram, configs, events).regions.map_values(
            |region: VmshmRegion| region.user_memory(),
        ),
    decreases events.len(),
{
    if events.len() > 0 {
        law_accepted_slots_are_windows(ram, configs, events.drop_last());
        lemma_pending_registration(ram, configs, events.drop_last());
    }
    assert(accepted_slots(ram, configs, events) =~= run(ram, configs, events).regions.map_values(
        |region: VmshmRegion| region.user_memory(),
    ));
}

/// Behind every memory slot that KVM accepted stands its window, whatever happens later.
pub proof fn law_accepted_slots_stay_backed(
    ram: Seq<(u64, u64)>,
    configs: Seq<VmshmDeviceConfig>,
    events: Seq<VmshmEvent>,
    later: Seq<VmshmEvent>,
    i: int,
)
    requires
        0 <= i < accepted_slots(ram, configs, events).len(),
    ensures
        i < run(ram, configs, events + later).regions.len(),
        accepted_slots(ram, configs, events)[i] == run(
            ram,
            configs,
            events + later,
        ).regions[i].user_memory(),
{
    law_accepted_slots_are_windows(ram, configs, events);
    law_attached_windows_stay(ram, configs, events, later);
}

/// Whether an event answers what an attachment waits for.
pub open spec fn answers(event: VmshmEvent, phase: AttachPhase) -> bool {
    match phase {
        AttachPhase::Ready => event is Start,
        AttachPhase::Connecting => event is Connected,
        AttachPhase::Requesting => event is RequestSent,
        AttachPhase::Receiving => event is ReplyReceived,
        AttachPhase::Taking(_) => event is FdTaken,
        AttachPhase::Mapping(_) => event is WindowMapped,
        AttachPhase::Registering(_) => event is RegionRegistered,
        AttachPhase::Finished => false,
    }
}

/// Whether an event reports that an action failed.
pub open spec fn reports_failure(event: VmshmEvent) -> bool {
    match event {
        VmshmEvent::Connected(outcome) => outcome is Err,
        VmshmEvent::RequestSent(outcome) => outcome is Err,
        VmshmEvent::ReplyReceived(outcome) => outcome is Err,
        VmshmEvent::WindowMapped(outcome) => outcome is Err,
        VmshmEvent::RegionRegistered(outcome) => outcome is Err,
        _ => false,
    }
}

/// How many answers an attachment can take at most before it is over.
pub open spec fn answers_left(model: AttachModel) -> int {
    let rest = 6 * (model.configs.len() - model.next);
    match model.phase {
        AttachPhase::Ready => rest + 1,
        AttachPhase::Connecting => rest,
        AttachPhase::Requesting => rest - 1,
        AttachPhase::Receiving => rest - 2,
        AttachPhase::Taking(_) => rest - 3,
        AttachPhase::Mapping(_) => rest - 4,
        AttachPhase::Registering(_) => rest - 5,
        AttachPhase::Finished => 0,
    }
}

/// Every answer brings an attachment closer to its end, so that it ends after at most six
/// answers for each configuration beside the one that starts it.
pub proof fn law_answers_advance(model: AttachModel, ram: Seq<(u64, u64)>, event: VmshmEvent)
    requires
        model.consistent(),
        answers(event, model.phase),
    ensures
        model.step(ram, event).model.consistent(),
        0 <= answers_left(model.step(ram, event).model) < answers_left(model),
        !(model.step(ram, event).action is Unexpected),
{
}

/// An event that answers nothing changes nothing.
pub proof fn law_stray_events_ignored(model: AttachModel, ram: Seq<(u64, u64)>, event: VmshmEvent)
    requires
        !answers(event, model.phase),
    ensures
        model.step(ram, event).model == model,
        model.step(ram, event).attached is None,
        model.step(ram, event).action is Unexpected,
{
}

/// The attachment is over exactly when its last action says so.
pub proof fn law_finished_says_so(model: AttachModel, ram: Seq<(u64, u64)>, event: VmshmEvent)
    requires
        answers(event, model.phase),
    ensures
        model.step(ram, event).model.phase is Finished <==> model.step(ram, event).action
            is Finished,
{
}

/// A failed action ends the attachment with an error and attaches nothing.
pub proof fn law_failure_ends(model: AttachModel, ram: Seq<(u64, u64)>, event: VmshmEvent)
    requires
        answers(event, model.phase),
        reports_failure(event),
    ensures
        ({
            let step = model.step(ram, event);
            &&& step.model.phase is Finished
            &&& step.model.next == model.next
            &&& step.attached is None
            &&& step.action matches ActionModel::Finished(result) && result is Err
        }),
{
}

/// A window whose name fits, whose broker grants it in an acceptable reply with a memfd, and
/// that can stand beside guest RAM and the earlier windows is attached, once the host has done
/// its part: success is owed.
pub proof fn law_granted_window_attaches(
    model: AttachModel,
    ram: Seq<(u64, u64)>,
    message: ReceivedMessage,
    reply: VmshmHandshakeReply,
    at: usize,
    host_addr: u64,
)
    requires
        model.consistent(),
        model.phase is Connecting,
        handshake::received_verdict(message) == Ok::<_, VmshmError>((reply, at)),
        handshake::reply_acceptable(model.config(), reply),
        reply.window_size <= usize::MAX,
        region::region_acceptable(
            ram,
            attach::granted_region(model.config(), reply, host_addr),
            model.used_slots(),
        ),
    ensures
        ({
            let region = attach::granted_region(model.config(), reply, host_addr);
            let requested = model.step(ram, VmshmEvent::Connected(Ok(())));
            let receiving = requested.model.step(ram, VmshmEvent::RequestSent(Ok(())));
            let taking = receiving.model.step(ram, VmshmEvent::ReplyReceived(Ok(message)));
            let mapping = taking.model.step(ram, VmshmEvent::FdTaken);
            let registering = mapping.model.step(ram, VmshmEvent::WindowMapped(Ok(host_addr)));
            let attached = registering.model.step(ram, VmshmEvent::RegionRegistered(Ok(())));
            &&& requested.action == ActionModel::SendRequest(
                handshake::request_bytes(model.config()),
            )
            &&& receiving.action == ActionModel::ReceiveReply(attach::reply_call())
            &&& taking.action == ActionModel::TakeFd(at)
            &&& mapping.action == ActionModel::MapWindow(
                attach::window_mapping(reply.window_size),
            )
            &&& registering.action == ActionModel::Register(region.user_memory())
            &&& attached.attached == Some(region)
            &&& attached.model.next == model.next + 1
        }),
{
    region::law_region_accepted(
        ram,
        attach::granted_region(model.config(), reply, host_addr),
        model.used_slots(),
    );
}

/// Whether everything goes well for configuration `i`: its name fits, `message` is an acceptable
/// reply with a memfd, and the window, mapped at `host_addr`, can stand beside guest RAM and the
/// windows of the configurations before.
pub open spec fn grants(
    ram: Seq<(u64, u64)>,
    configs: Seq<VmshmDeviceConfig>,
    i: int,
    message: ReceivedMessage,
    host_addr: u64,
) -> bool {
    &&& handshake::name_fits(configs[i])
    &&& handshake::received_verdict(message) matches Ok((reply, at))
    &&& handshake::reply_acceptable(configs[i], reply)
    &&& reply.window_size <= usize::MAX
    &&& region::region_acceptable(
        ram,
        attach::granted_region(configs[i], reply, host_addr),
        attach::slots(configs.take(i)),
    )
}

/// The window that `message` grants to configuration `i`, mapped at `host_addr`.
pub open spec fn window_of(
    configs: Seq<VmshmDeviceConfig>,
    i: int,
    message: ReceivedMessage,
    host_addr: u64,
) -> VmshmRegion {
    attach::granted_region(configs[i], handshake::received_verdict(message).unwrap().0, host_addr)
}

/// The events of an attachment whose first `count` windows are granted.
pub open spec fn granting_events(
    messages: Seq<ReceivedMessage>,
    host_addrs: Seq<u64>,
    count: nat,
) -> Seq<VmshmEvent>
    decreases count,
{
    if count == 0 {
        seq![VmshmEvent::Start]
    } else {
        granting_events(messages, host_addrs, (count - 1) as nat).push(
            VmshmEvent::Connected(Ok(())),
        ).push(VmshmEvent::RequestSent(Ok(()))).push(
            VmshmEvent::ReplyReceived(Ok(messages[count - 1])),
        ).push(VmshmEvent::FdTaken).push(
            VmshmEvent::WindowMapped(Ok(host_addrs[count - 1])),
        ).push(VmshmEvent::RegionRegistered(Ok(())))
    }
}

/// One more event is one more step.
proof fn lemma_run_push(
    ram: Seq<(u64, u64)>,
    configs: Seq<VmshmDeviceConfig>,
    events: Seq<VmshmEvent>,
    event: VmshmEvent,
)
    ensures
        ({
            let before = run(ram, configs, events);
            let after = run(ram, configs, events.push(event));
            let step = before.model.step(ram, event);
            &&& after.model == step.model
            &&& after.regions == match step.attached {
                Some(region) => before.regions.push(region),
                None => before.regions,
            }
            &&& after.actions == before.actions.push(step.action)
        }),
{
    assert(events.push(event).drop_last() =~= events);
}

/// Where the first `count` windows are granted, they are attached, and the attachment turns to
/// the next configuration.
proof fn lemma_granted_windows(
    ram: Seq<(u64, u64)>,
    configs: Seq<VmshmDeviceConfig>,
    messages: Seq<ReceivedMessage>,
    host_addrs: Seq<u64>,
    count: nat,
)
    requires
        count <= configs.len(),
        forall|i: int|
            0 <= i < configs.len() ==> #[trigger] grants(
                ram,
                configs,
                i,
                messages[i],
                host_addrs[i],
            ),
    ensures
        ({
            let after = run(ram, configs, granting_events(messages, host_addrs, count));
            &&& after.model.configs == configs
            &&& after.model.next == count
            &&& after.regions == Seq::new(
                count,
                |i: int| window_of(configs, i, messages[i], host_addrs[i]),
            )
            &&& count < configs.len() ==> after.model.phase is Connecting
            &&& count == configs.len() ==> after.actions.last() == ActionModel::Finished(Ok(()))
        }),
    decreases count,
{
    let windows = |i: int| window_of(configs, i, messages[i], host_addrs[i]);
    let events = granting_events(messages, host_addrs, count);
    if count < configs.len() {
        assert(grants(ram, configs, count as int, messages[count as int], host_addrs[count as int]));
    }
    if count == 0 {
        assert(events =~= Seq::empty().push(VmshmEvent::Start));
        lemma_run_push(ram, configs, Seq::empty(), VmshmEvent::Start);
        assert(run(ram, configs, events).regions =~= Seq::new(0, windows));
    } else {
        let i = count - 1;
        let message = messages[i];
        let host_addr = host_addrs[i];
        let start = granting_events(messages, host_addrs, i as nat);
        let connected = start.push(VmshmEvent::Connected(Ok(())));
        let requested = connected.push(VmshmEvent::RequestSent(Ok(())));
        let received = requested.push(VmshmEvent::ReplyReceived(Ok(message)));
        let taken = received.push(VmshmEvent::FdTaken);
        let mapped = taken.push(VmshmEvent::WindowMapped(Ok(host_addr)));
        lemma_granted_windows(ram, configs, messages, host_addrs, i as nat);
        law_every_run_sound(ram, configs, start);
        assert(grants(ram, configs, i, message, host_addr));
        let before = run(ram, configs, start);
        let (reply, at) = handshake::received_verdict(message).unwrap();
        lemma_run_push(ram, configs, start, VmshmEvent::Connected(Ok(())));
        lemma_run_push(ram, configs, connected, VmshmEvent::RequestSent(Ok(())));
        lemma_run_push(ram, configs, requested, VmshmEvent::ReplyReceived(Ok(message)));
        lemma_run_push(ram, configs, received, VmshmEvent::FdTaken);
        lemma_run_push(ram, configs, taken, VmshmEvent::WindowMapped(Ok(host_addr)));
        lemma_run_push(ram, configs, mapped, VmshmEvent::RegionRegistered(Ok(())));
        law_granted_window_attaches(before.model, ram, message, reply, at, host_addr);
        assert(run(ram, configs, events).regions =~= Seq::new(count, windows));
    }
}

/// Where every configured window is granted, the attachment ends well, with each of them
/// attached in order.
pub proof fn law_granted_windows_all_attach(
    ram: Seq<(u64, u64)>,
    configs: Seq<VmshmDeviceConfig>,
    messages: Seq<ReceivedMessage>,
    host_addrs: Seq<u64>,
)
    requires
        forall|i: int|
            0 <= i < configs.len() ==> #[trigger] grants(
                ram,
                configs,
                i,
                messages[i],
                host_addrs[i],
            ),
    ensures
        ({
            let end = run(ram, configs, granting_events(messages, host_addrs, configs.len()));
            &&& end.actions.last() == ActionModel::Finished(Ok(()))
            &&& end.regions == Seq::new(
                configs.len(),
                |i: int| window_of(configs, i, messages[i], host_addrs[i]),
            )
        }),
{
    lemma_granted_windows(ram, configs, messages, host_addrs, configs.len());
}

/// Where the broker would place the window plays no part in the window that is attached.
pub proof fn law_broker_placement_ignored(
    config: VmshmDeviceConfig,
    reply: VmshmHandshakeReply,
    host_addr: u64,
    guest_phys_addr: u64,
    slot: u32,
)
    ensures
        attach::granted_region(
            config,
            (VmshmHandshakeReply { guest_phys_addr, slot, ..reply }),
            host_addr,
        ) == attach::granted_region(config, reply, host_addr),
        attach::granted_region(config, reply, host_addr).user_memory().guest_phys_addr
            == config.guest_phys_addr,
        attach::granted_region(config, reply, host_addr).user_memory().slot == config.slot,
{
}

} // verus!
