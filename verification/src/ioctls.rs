//! The request codes of the device operations a machine thread performs,
//! as the subsystems that own them number them on x86_64. The policy only
//! ever compares these words; it attaches no meaning to them.

use vstd::prelude::*;

verus! {

// Terminal control.
pub const TCGETS: u32 = 0x5401;

pub const TCSETS: u32 = 0x5402;

pub const TIOCGWINSZ: u32 = 0x5413;

pub const FIOCLEX: u32 = 0x5451;

pub const FIONBIO: u32 = 0x5421;

// The hypervisor interface.
pub const KVM_GET_API_VERSION: u32 = 0xae00;

pub const KVM_RUN: u32 = 0xae80;

pub const KVM_SET_DEVICE_ATTR: u32 = 0x4018_aee1;

pub const KVM_SET_USER_MEMORY_REGION: u32 = 0x4020_ae46;

pub const KVM_IOEVENTFD: u32 = 0x4040_ae79;

pub const KVM_SIGNAL_MSI: u32 = 0x4020_aea5;

pub const KVM_SET_GSI_ROUTING: u32 = 0x4008_ae6a;

pub const KVM_IRQFD: u32 = 0x4020_ae76;

pub const KVM_CREATE_DEVICE: u32 = 0xc00c_aee0;

pub const KVM_GET_MP_STATE: u32 = 0x8004_ae98;

pub const KVM_SET_MP_STATE: u32 = 0x4004_ae99;

pub const KVM_GET_VCPU_EVENTS: u32 = 0x8040_ae9f;

pub const KVM_SET_VCPU_EVENTS: u32 = 0x4040_aea0;

pub const KVM_GET_PIT2: u32 = 0x8070_ae9f;

pub const KVM_GET_CLOCK: u32 = 0x8030_ae7c;

pub const KVM_GET_IRQCHIP: u32 = 0xc208_ae62;

pub const KVM_GET_REGS: u32 = 0x8090_ae81;

pub const KVM_SET_REGS: u32 = 0x4090_ae82;

pub const KVM_GET_SREGS: u32 = 0x8138_ae83;

pub const KVM_SET_SREGS: u32 = 0x4138_ae84;

pub const KVM_GET_XSAVE: u32 = 0x9000_aea4;

pub const KVM_SET_XSAVE: u32 = 0x5000_aea5;

pub const KVM_GET_XCRS: u32 = 0x8188_aea6;

pub const KVM_SET_XCRS: u32 = 0x4188_aea7;

pub const KVM_GET_DEBUGREGS: u32 = 0x8080_aea1;

pub const KVM_SET_DEBUGREGS: u32 = 0x4080_aea2;

pub const KVM_GET_LAPIC: u32 = 0x8400_ae8e;

pub const KVM_SET_LAPIC: u32 = 0x4400_ae8f;

pub const KVM_GET_MSRS: u32 = 0xc008_ae88;

pub const KVM_SET_MSRS: u32 = 0x4008_ae89;

pub const KVM_GET_SUPPORTED_CPUID: u32 = 0xc008_ae05;

pub const KVM_SET_CPUID2: u32 = 0x4008_ae90;

pub const KVM_GET_DIRTY_LOG: u32 = 0x4010_ae42;

// The in-kernel virtio back-end.
pub const VHOST_GET_FEATURES: u32 = 0x8008_af00;

pub const VHOST_SET_FEATURES: u32 = 0x4008_af00;

pub const VHOST_SET_OWNER: u32 = 0xaf01;

pub const VHOST_RESET_OWNER: u32 = 0xaf02;

pub const VHOST_SET_MEM_TABLE: u32 = 0x4008_af03;

pub const VHOST_SET_VRING_NUM: u32 = 0x4008_af10;

pub const VHOST_SET_VRING_ADDR: u32 = 0x4028_af11;

pub const VHOST_SET_VRING_BASE: u32 = 0x4008_af12;

pub const VHOST_GET_VRING_BASE: u32 = 0xc008_af12;

pub const VHOST_SET_VRING_KICK: u32 = 0x4008_af20;

pub const VHOST_SET_VRING_CALL: u32 = 0x4008_af21;

pub const VHOST_NET_SET_BACKEND: u32 = 0x4008_af30;

pub const VHOST_VSOCK_SET_GUEST_CID: u32 = 0x4008_af60;

pub const VHOST_VSOCK_SET_RUNNING: u32 = 0x4004_af61;

// The tap network device.
pub const TUNSETIFF: u32 = 0x4004_54ca;

pub const TUNGETFEATURES: u32 = 0x8004_54cf;

pub const TUNSETOFFLOAD: u32 = 0x4004_54d0;

pub const TUNSETVNETHDRSZ: u32 = 0x4004_54d8;

// Device pass-through.
pub const VFIO_GET_API_VERSION: u32 = 0x3b64;

pub const VFIO_CHECK_EXTENSION: u32 = 0x3b65;

pub const VFIO_SET_IOMMU: u32 = 0x3b66;

pub const VFIO_GROUP_GET_STATUS: u32 = 0x3b67;

pub const VFIO_GROUP_SET_CONTAINER: u32 = 0x3b68;

pub const VFIO_GROUP_GET_DEVICE_FD: u32 = 0x3b6a;

pub const VFIO_DEVICE_GET_INFO: u32 = 0x3b6b;

pub const VFIO_DEVICE_GET_REGION_INFO: u32 = 0x3b6c;

pub const VFIO_DEVICE_GET_IRQ_INFO: u32 = 0x3b6d;

pub const VFIO_DEVICE_SET_IRQS: u32 = 0x3b6e;

pub const VFIO_DEVICE_RESET: u32 = 0x3b6f;

pub const VFIO_IOMMU_MAP_DMA: u32 = 0x3b71;

pub const VFIO_IOMMU_UNMAP_DMA: u32 = 0x3b72;

} // verus!
