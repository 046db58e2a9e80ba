//! The state a device session holds once Firehose is configured.

use crate::base::protocol::FirehoseInfo;
use crate::base::types::{DeviceCapabilities, DeviceInfo};
use crate::base::util::human_size;
use vstd::prelude::*;

verus! {

/// All device state after configuration.
#[derive(Debug)]
pub struct Session {
    pub(crate) info: DeviceInfo,
    pub(crate) capabilities: DeviceCapabilities,
    pub(crate) firehose: FirehoseInfo,
    /// Raw MSM hardware ID bytes (from the Sahara MSM_HW_ID_READ command).
    pub(crate) msm_hw_id: Option<Vec<u8>>,
    /// Chip serial number (from the Sahara SERIAL_NUM_READ command).
    pub(crate) serial_num: Option<u64>,
}

impl Session {
    pub closed spec fn spec_info(&self) -> DeviceInfo {
        self.info
    }

    pub closed spec fn spec_capabilities(&self) -> DeviceCapabilities {
        self.capabilities
    }

    pub closed spec fn spec_firehose(&self) -> FirehoseInfo {
        self.firehose
    }

    pub closed spec fn spec_msm_hw_id(&self) -> Option<Vec<u8>> {
        self.msm_hw_id
    }

    pub closed spec fn spec_serial_num(&self) -> Option<u64> {
        self.serial_num
    }

    pub fn new(info: DeviceInfo, capabilities: DeviceCapabilities, firehose: FirehoseInfo) -> (s: Self)
        ensures
            s.spec_info() == info,
            s.spec_capabilities() == capabilities,
            s.spec_firehose() == firehose,
            s.spec_msm_hw_id() is None,
            s.spec_serial_num() is None,
    {
        Session { info, capabilities, firehose, msm_hw_id: None, serial_num: None }
    }

    pub fn with_msm_hw_id(self, id: Vec<u8>) -> (s: Self)
        ensures
            s.spec_msm_hw_id() == Some(id),
            s.spec_info() == self.spec_info(),
            s.spec_capabilities() == self.spec_capabilities(),
            s.spec_firehose() == self.spec_firehose(),
            s.spec_serial_num() == self.spec_serial_num(),
    {
        let mut s = self;
        s.msm_hw_id = Some(id);
        s
    }

    pub fn with_serial_num(self, num: u64) -> (s: Self)
        ensures
            s.spec_serial_num() == Some(num),
            s.spec_info() == self.spec_info(),
            s.spec_capabilities() == self.spec_capabilities(),
            s.spec_firehose() == self.spec_firehose(),
            s.spec_msm_hw_id() == self.spec_msm_hw_id(),
    {
        let mut s = self;
        s.serial_num = Some(num);
        s
    }

    pub fn info(&self) -> (r: &DeviceInfo)
        ensures
            *r == self.spec_info(),
    {
        &self.info
    }

    pub fn capabilities(&self) -> (r: &DeviceCapabilities)
        ensures
            *r == self.spec_capabilities(),
    {
        &self.capabilities
    }

    pub fn firehose_info(&self) -> (r: &FirehoseInfo)
        ensures
            *r == self.spec_firehose(),
    {
        &self.firehose
    }

    pub fn msm_hw_id(&self) -> (r: Option<&[u8]>)
        ensures
            match self.spec_msm_hw_id() {
                Some(v) => r matches Some(b) && b@ == v@,
                None => r is None,
            },
    {
        match &self.msm_hw_id {
            Some(v) => Some(v.as_slice()),
            None => None,
        }
    }

    pub fn serial_num(&self) -> (r: Option<u64>)
        ensures
            r == self.spec_serial_num(),
    {
        self.serial_num
    }

    pub fn set_msm_hw_id(&mut self, id: Option<Vec<u8>>)
        ensures
            final(self).spec_msm_hw_id() == id,
            final(self).spec_info() == old(self).spec_info(),
            final(self).spec_capabilities() == old(self).spec_capabilities(),
            final(self).spec_firehose() == old(self).spec_firehose(),
            final(self).spec_serial_num() == old(self).spec_serial_num(),
    {
        self.msm_hw_id = id;
    }

    pub fn set_serial_num(&mut self, num: Option<u64>)
        ensures
            final(self).spec_serial_num() == num,
            final(self).spec_info() == old(self).spec_info(),
            final(self).spec_capabilities() == old(self).spec_capabilities(),
            final(self).spec_firehose() == old(self).spec_firehose(),
            final(self).spec_msm_hw_id() == old(self).spec_msm_hw_id(),
    {
        self.serial_num = num;
    }

    pub fn sector_size(&self) -> (r: u32)
        ensures
            r == self.spec_firehose().sector_size,
    {
        self.firehose.sector_size
    }

    pub fn max_payload_size(&self) -> (r: u32)
        ensures
            r == self.spec_firehose().max_payload_size,
    {
        self.firehose.max_payload_size
    }

    pub fn memory_type(&self) -> (r: &str)
        ensures
            r@ == self.spec_capabilities().memory_type@,
    {
        self.capabilities.memory_type.as_str()
    }

    pub fn total_sectors(&self) -> (r: u64)
        ensures
            r == self.spec_capabilities().total_sectors,
    {
        self.capabilities.total_sectors
    }

    /// Total device size in bytes.
    pub fn total_size_bytes(&self) -> (r: u64)
        requires
            self.spec_capabilities().total_sectors * self.spec_firehose().sector_size <= u64::MAX,
        ensures
            r == self.spec_capabilities().total_sectors * self.spec_firehose().sector_size,
    {
        self.capabilities.total_size_bytes(self.firehose.sector_size)
    }

    /// Total device size with decimal units.
    pub fn total_size_human(&self) -> (r: String)
        requires
            self.spec_capabilities().total_sectors * self.spec_firehose().sector_size <= u64::MAX,
        ensures
            r@ == human_size((self.spec_capabilities().total_sectors * self.spec_firehose().sector_size) as u64),
    {
        self.capabilities.total_size_human(self.firehose.sector_size)
    }

    /// Takes over the state of a configured Firehose client.
    pub fn update_from_firehose(
        &mut self,
        sector_size: u32,
        max_payload_size: u32,
        max_payload_size_from_target: Option<u32>,
        max_payload_size_to_target_supported: Option<u32>,
        max_xml_size: Option<u32>,
        target_name: &str,
        version: Option<&str>,
        memory_name: &str,
        total_sectors: u64,
    )
        ensures
            final(self).spec_firehose().sector_size == sector_size,
            final(self).spec_firehose().max_payload_size == max_payload_size,
            final(self).spec_firehose().max_payload_size_from_target == max_payload_size_from_target,
            final(self).spec_firehose().max_payload_size_to_target_supported
                == max_payload_size_to_target_supported,
            final(self).spec_firehose().max_xml_size == max_xml_size,
            final(self).spec_firehose().target_name matches Some(t) && t@ == target_name@,
            match version {
                Some(v) => final(self).spec_firehose().version matches Some(w) && w@ == v@,
                None => final(self).spec_firehose().version is None,
            },
            final(self).spec_firehose().supported_functions == old(self).spec_firehose().supported_functions,
            final(self).spec_capabilities().memory_type@ == memory_name@,
            final(self).spec_capabilities().total_sectors == total_sectors,
            final(self).spec_info() == old(self).spec_info(),
            final(self).spec_msm_hw_id() == old(self).spec_msm_hw_id(),
            final(self).spec_serial_num() == old(self).spec_serial_num(),
    {
        self.firehose.sector_size = sector_size;
        self.firehose.max_payload_size = max_payload_size;
        self.firehose.max_payload_size_from_target = max_payload_size_from_target;
        self.firehose.max_payload_size_to_target_supported = max_payload_size_to_target_supported;
        self.firehose.max_xml_size = max_xml_size;
        self.firehose.target_name = Some(String::from_str(target_name));
        self.firehose.version = match version {
            Some(v) => Some(String::from_str(v)),
            None => None,
        };
        self.capabilities.memory_type = String::from_str(memory_name);
        self.capabilities.total_sectors = total_sectors;
    }
}

} // verus!
