//! The refresh loop's state and decisions: whether to keep or replace the
//! active provider, re-enumerating devices, and computing the display
//! pages that replace the previous cycle's.
//!
//! The reconciler owns its state exclusively; one [`ReconcilerState::refresh`]
//! call performs a whole cycle. The display surface itself is outside the
//! library: the caller removes the pages named by the outcome, then adds
//! one page per returned device record.

use crate::formatter::apply_spec;
use crate::processor::{parse_lines, Executor};
use crate::provider::{create_provider, key_index, provider_spec, name_key, Provider};
use vstd::prelude::*;
use vstd::string::*;

verus! {

/// One displayed device: its vendor id and the name shown on its page.
pub struct DeviceRecord {
    pub id: String,
    pub display_name: String,
}

/// What one refresh asks of the display surface: remove the pages of the
/// previous cycle, then add one page per freshly enumerated device.
pub struct RefreshOutcome {
    pub removed_ids: Vec<String>,
    pub pages: Vec<DeviceRecord>,
}

/// The reconciler's state: the active provider, if any, and the ids of the
/// devices currently displayed.
pub struct ReconcilerState {
    pub active_provider: Option<Provider>,
    pub displayed_device_ids: Vec<String>,
}

/// True when the active provider is kept for this cycle: one exists and it
/// was built for the desired backend id.
pub open spec fn keeps_provider(s: ReconcilerState, desired_backend: i32) -> bool {
    match s.active_provider {
        Some(p) => p.provider_type == desired_backend,
        None => false,
    }
}

/// Law: consecutive refreshes with an unchanged, in-range backend id reuse
/// the provider. A provider built for `desired_backend` satisfies the keep
/// condition of the next refresh with the same id, and [`ReconcilerState::refresh`]
/// then leaves it untouched. (An out-of-range id is normalized at
/// construction and so never satisfies the keep condition: such a backend
/// is rebuilt every cycle.)
pub proof fn lemma_refresh_reuses_provider(s: ReconcilerState, desired_backend: i32)
    requires
        0 <= desired_backend <= 3,
        s.active_provider matches Some(p) && p@ == provider_spec(desired_backend as int),
    ensures
        keeps_provider(s, desired_backend),
{
}

impl ReconcilerState {
    /// The initial state: no provider, nothing displayed.
    pub fn new() -> (s: ReconcilerState)
        ensures
            s.active_provider is None,
            s.displayed_device_ids@.len() == 0,
    {
        ReconcilerState { active_provider: None, displayed_device_ids: Vec::new() }
    }

    /// One refresh cycle. Every previously displayed page is requested
    /// removed; the provider is kept when its backend id equals the desired
    /// one and rebuilt otherwise; devices are re-enumerated, one page per
    /// device, its name from the provider's name property or, when that
    /// lookup fails, the device id itself; the displayed set is fully
    /// replaced, never patched. Enumeration failure leaves zero displayed
    /// devices for this cycle.
    pub fn refresh<E: Executor>(
        &mut self,
        desired_backend: i32,
        executor: &mut E,
        params: &Option<Vec<(String, String)>>,
    ) -> (out: RefreshOutcome)
        ensures
            out.removed_ids == old(self).displayed_device_ids,
            keeps_provider(*old(self), desired_backend) ==> final(self).active_provider == old(
                self,
            ).active_provider,
            !keeps_provider(*old(self), desired_backend) ==> (match final(self).active_provider {
                Some(p) => p@ == provider_spec(desired_backend as int),
                None => false,
            }),
            final(self).displayed_device_ids.deep_view() == Seq::new(
                out.pages@.len(),
                |i: int| out.pages@[i].id@,
            ),
            exists|enumerated: Seq<char>|
                final(self).displayed_device_ids.deep_view() == parse_lines(enumerated),
            forall|i: int|
                0 <= i < out.pages@.len() ==> (out.pages@[i].display_name@ == out.pages@[i].id@
                    || (exists|captured: Seq<char>|
                    Some(out.pages@[i].display_name@) == apply_spec(
                        final(self).active_provider->Some_0@.properties[key_index(
                            final(self).active_provider->Some_0@.properties,
                            "gpu_name"@,
                        )->Some_0].formatter,
                        parse_lines(captured),
                        params.deep_view(),
                    ))),
    {
        // Step 1: every page of the previous cycle is torn down.
        let mut removed_ids: Vec<String> = Vec::new();
        core::mem::swap(&mut removed_ids, &mut self.displayed_device_ids);
        // Steps 2 and 3: keep the provider when its backend id matches the
        // desired one (its fragments and formatters are immutable, so reuse
        // is safe); otherwise build the desired backend's provider.
        let rebuild: bool = match &self.active_provider {
            Some(p) => p.provider_type != desired_backend,
            None => true,
        };
        if rebuild {
            self.active_provider = Some(create_provider(desired_backend));
        }
        let provider: &Provider = self.active_provider.as_ref().unwrap();
        // Step 4: re-enumerate and rebuild the page list.
        let mut pages: Vec<DeviceRecord> = Vec::new();
        let mut new_ids: Vec<String> = Vec::new();
        match provider.get_gpu_uuids(executor) {
            Err(_) => {
                // Enumeration failed: zero displayed devices this cycle.
                proof {
                    assert(new_ids.deep_view() =~= parse_lines(Seq::<char>::empty()));
                }
            },
            Ok(ids) => {
                let key: String = name_key();
                let mut i: usize = 0;
                while i < ids.len()
                    invariant
                        i <= ids@.len(),
                        key@ == "gpu_name"@,
                        pages@.len() == i,
                        new_ids.deep_view() == ids.deep_view().subrange(0, i as int),
                        forall|j: int| 0 <= j < i ==> pages@[j].id@ == ids.deep_view()[j],
                        forall|j: int|
                            0 <= j < i ==> (pages@[j].display_name@ == pages@[j].id@ || (exists|
                                captured: Seq<char>,
                            |
                            Some(pages@[j].display_name@) == apply_spec(
                                provider@.properties[key_index(
                                    provider@.properties,
                                    "gpu_name"@,
                                )->Some_0].formatter,
                                parse_lines(captured),
                                params.deep_view(),
                            ))),
                    decreases ids@.len() - i,
                {
                    let id: &String = &ids[i];
                    let display_name: String = match provider.get_gpu_data(
                        executor,
                        id.as_str(),
                        key.as_str(),
                        params,
                    ) {
                        Ok(name) => name,
                        // The name lookup failed: fall back to the id, log
                        // nothing fatal, and carry on with the next device.
                        Err(_) => id.clone(),
                    };
                    let ghost ids_before = new_ids.deep_view();
                    pages.push(DeviceRecord { id: id.clone(), display_name });
                    new_ids.push(id.clone());
                    proof {
                        assert(ids_before.len() == i as int);
                        assert(new_ids@.len() == ids_before.len() + 1);
                        assert(new_ids@.len() == i + 1);
                        assert forall|j: int| 0 <= j < i + 1 implies new_ids.deep_view()[j]
                            == ids.deep_view().subrange(0, i + 1)[j] by {
                            if j < i {
                                assert(new_ids.deep_view()[j] == ids_before[j]);
                                assert(ids_before[j] == ids.deep_view().subrange(0, i as int)[j]);
                            } else {
                                assert(new_ids@[j] == ids@[i as int]);
                            }
                        }
                        assert(new_ids.deep_view() =~= ids.deep_view().subrange(0, i + 1));
                    }
                    i += 1;
                }
                proof {
                    assert(new_ids.deep_view() =~= ids.deep_view());
                }
            },
        }
        proof {
            assert(new_ids.deep_view() =~= Seq::new(pages@.len(), |i: int| pages@[i].id@));
        }
        self.displayed_device_ids = new_ids;
        RefreshOutcome { removed_ids, pages }
    }
}

} // verus!
