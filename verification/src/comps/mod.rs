pub mod sidebar;
